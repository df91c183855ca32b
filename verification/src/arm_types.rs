//! The closed set of ARM NEON types the fuzzer generates code over: the
//! mapping from the catalog's C type names, each type's size and C++
//! spelling, and the load intrinsic that fills it from an input buffer.
use vstd::prelude::*;

use crate::fmt_num::{spec_dec_int, i32_to_dec};

verus! {

/// Primitive C++ base types for the ARM surface.
#[derive(Debug, PartialEq, Eq, Hash, Clone, Copy, Structural)]
pub enum ARMBaseType {
    Void,
    Int8,
    UInt8,
    Int16,
    UInt16,
    Int32,
    UInt32,
    Int64,
    UInt64,
    Float16,
    Float32,
    Float64,
    BFloat16,
    Poly8,
    Poly16,
    Poly32,
    Poly64,
    Poly128,
}

/// A type in the ARM flavor: a scalar, a compile-time integer constant with
/// its permitted range, a vector of `count` lanes, or an array of such
/// vectors.
#[derive(Debug, PartialEq, Eq, Hash, Clone, Copy, Structural)]
pub enum ARMSIMDType {
    Primitive(ARMBaseType),
    ConstantIntImmediate(i32, i32),
    SIMD(ARMBaseType, i32),
    SIMDArr(ARMBaseType, i32, i32),
}

/// An intrinsic from the catalog: its name and full signature.
#[derive(Debug)]
pub struct ARMSIMDIntrinsic {
    pub intrinsic_name: String,
    pub return_type: ARMSIMDType,
    pub param_types: Vec<ARMSIMDType>,
}

/// Mathematical image of an intrinsic record.
pub struct ARMSIMDIntrinsicV {
    pub name: Seq<char>,
    pub return_type: ARMSIMDType,
    pub param_types: Seq<ARMSIMDType>,
}

impl View for ARMSIMDIntrinsic {
    type V = ARMSIMDIntrinsicV;

    open spec fn view(&self) -> ARMSIMDIntrinsicV {
        ARMSIMDIntrinsicV {
            name: self.intrinsic_name@,
            return_type: self.return_type,
            param_types: self.param_types@,
        }
    }
}

impl Clone for ARMSIMDIntrinsic {
    fn clone(&self) -> (r: Self)
        ensures
            r@ == self@,
    {
        ARMSIMDIntrinsic {
            intrinsic_name: self.intrinsic_name.clone(),
            return_type: self.return_type,
            param_types: self.param_types.clone(),
        }
    }
}

/// Character-for-character string equality.
pub fn str_eq(a: &str, b: &str) -> (r: bool)
    ensures
        r == (a@ == b@),
{
    let alen = a.unicode_len();
    let blen = b.unicode_len();
    if alen != blen {
        proof {
            assert(a@ != b@);
        }
        return false;
    }
    let mut i: usize = 0;
    while i < alen
        invariant
            alen == a@.len(),
            blen == b@.len(),
            alen == blen,
            i <= alen,
            forall|j: int| 0 <= j < i ==> a@[j] == b@[j],
        decreases alen - i,
    {
        if a.get_char(i) != b.get_char(i) {
            proof {
                assert(a@[i as int] != b@[i as int]);
            }
            return false;
        }
        i = i + 1;
    }
    proof {
        assert(a@ =~= b@);
    }
    true
}

/// The type a catalog type name denotes, `None` for a name outside the
/// catalog's closed set.
pub open spec fn spec_parse_arm_simd_type(s: Seq<char>) -> Option<ARMSIMDType> {
    if s == "void"@ {
        Some(ARMSIMDType::Primitive(ARMBaseType::Void))
    } else if s == "int8_t"@ {
        Some(ARMSIMDType::Primitive(ARMBaseType::Int8))
    } else if s == "int16_t"@ {
        Some(ARMSIMDType::Primitive(ARMBaseType::Int16))
    } else if s == "int32_t"@ {
        Some(ARMSIMDType::Primitive(ARMBaseType::Int32))
    } else if s == "int64_t"@ {
        Some(ARMSIMDType::Primitive(ARMBaseType::Int64))
    } else if s == "uint8_t"@ {
        Some(ARMSIMDType::Primitive(ARMBaseType::UInt8))
    } else if s == "uint16_t"@ {
        Some(ARMSIMDType::Primitive(ARMBaseType::UInt16))
    } else if s == "uint32_t"@ {
        Some(ARMSIMDType::Primitive(ARMBaseType::UInt32))
    } else if s == "uint64_t"@ {
        Some(ARMSIMDType::Primitive(ARMBaseType::UInt64))
    } else if s == "float16_t"@ {
        Some(ARMSIMDType::Primitive(ARMBaseType::Float16))
    } else if s == "float32_t"@ {
        Some(ARMSIMDType::Primitive(ARMBaseType::Float32))
    } else if s == "float64_t"@ {
        Some(ARMSIMDType::Primitive(ARMBaseType::Float64))
    } else if s == "poly8_t"@ {
        Some(ARMSIMDType::Primitive(ARMBaseType::Poly8))
    } else if s == "poly16_t"@ {
        Some(ARMSIMDType::Primitive(ARMBaseType::Poly16))
    } else if s == "poly32_t"@ {
        Some(ARMSIMDType::Primitive(ARMBaseType::Poly32))
    } else if s == "poly64_t"@ {
        Some(ARMSIMDType::Primitive(ARMBaseType::Poly64))
    } else if s == "poly128_t"@ {
        Some(ARMSIMDType::Primitive(ARMBaseType::Poly128))
    } else if s == "int8x8_t"@ {
        Some(ARMSIMDType::SIMD(ARMBaseType::Int8, 8))
    } else if s == "int8x16_t"@ {
        Some(ARMSIMDType::SIMD(ARMBaseType::Int8, 16))
    } else if s == "int16x4_t"@ {
        Some(ARMSIMDType::SIMD(ARMBaseType::Int16, 4))
    } else if s == "int16x8_t"@ {
        Some(ARMSIMDType::SIMD(ARMBaseType::Int16, 8))
    } else if s == "int32x2_t"@ {
        Some(ARMSIMDType::SIMD(ARMBaseType::Int32, 2))
    } else if s == "int32x4_t"@ {
        Some(ARMSIMDType::SIMD(ARMBaseType::Int32, 4))
    } else if s == "int64x1_t"@ {
        Some(ARMSIMDType::SIMD(ARMBaseType::Int64, 1))
    } else if s == "int64x2_t"@ {
        Some(ARMSIMDType::SIMD(ARMBaseType::Int64, 2))
    } else if s == "uint8x8_t"@ {
        Some(ARMSIMDType::SIMD(ARMBaseType::UInt8, 8))
    } else if s == "uint8x16_t"@ {
        Some(ARMSIMDType::SIMD(ARMBaseType::UInt8, 16))
    } else if s == "uint16x4_t"@ {
        Some(ARMSIMDType::SIMD(ARMBaseType::UInt16, 4))
    } else if s == "uint16x8_t"@ {
        Some(ARMSIMDType::SIMD(ARMBaseType::UInt16, 8))
    } else if s == "uint32x2_t"@ {
        Some(ARMSIMDType::SIMD(ARMBaseType::UInt32, 2))
    } else if s == "uint32x4_t"@ {
        Some(ARMSIMDType::SIMD(ARMBaseType::UInt32, 4))
    } else if s == "uint64x1_t"@ {
        Some(ARMSIMDType::SIMD(ARMBaseType::UInt64, 1))
    } else if s == "uint64x2_t"@ {
        Some(ARMSIMDType::SIMD(ARMBaseType::UInt64, 2))
    } else if s == "float16x4_t"@ {
        Some(ARMSIMDType::SIMD(ARMBaseType::Float16, 4))
    } else if s == "float16x8_t"@ {
        Some(ARMSIMDType::SIMD(ARMBaseType::Float16, 8))
    } else if s == "float32x2_t"@ {
        Some(ARMSIMDType::SIMD(ARMBaseType::Float32, 2))
    } else if s == "float32x4_t"@ {
        Some(ARMSIMDType::SIMD(ARMBaseType::Float32, 4))
    } else if s == "float64x1_t"@ {
        Some(ARMSIMDType::SIMD(ARMBaseType::Float64, 1))
    } else if s == "float64x2_t"@ {
        Some(ARMSIMDType::SIMD(ARMBaseType::Float64, 2))
    } else if s == "poly8x8_t"@ {
        Some(ARMSIMDType::SIMD(ARMBaseType::Poly8, 8))
    } else if s == "poly8x16_t"@ {
        Some(ARMSIMDType::SIMD(ARMBaseType::Poly8, 16))
    } else if s == "poly16x4_t"@ {
        Some(ARMSIMDType::SIMD(ARMBaseType::Poly16, 4))
    } else if s == "poly16x8_t"@ {
        Some(ARMSIMDType::SIMD(ARMBaseType::Poly16, 8))
    } else if s == "poly32x2_t"@ {
        Some(ARMSIMDType::SIMD(ARMBaseType::Poly32, 2))
    } else if s == "poly32x4_t"@ {
        Some(ARMSIMDType::SIMD(ARMBaseType::Poly32, 4))
    } else if s == "poly64x1_t"@ {
        Some(ARMSIMDType::SIMD(ARMBaseType::Poly64, 1))
    } else if s == "poly64x2_t"@ {
        Some(ARMSIMDType::SIMD(ARMBaseType::Poly64, 2))
    } else if s == "int8x8x2_t"@ {
        Some(ARMSIMDType::SIMDArr(ARMBaseType::Int8, 8, 2))
    } else if s == "int8x16x2_t"@ {
        Some(ARMSIMDType::SIMDArr(ARMBaseType::Int8, 16, 2))
    } else if s == "uint8x8x2_t"@ {
        Some(ARMSIMDType::SIMDArr(ARMBaseType::UInt8, 8, 2))
    } else if s == "uint8x16x2_t"@ {
        Some(ARMSIMDType::SIMDArr(ARMBaseType::UInt8, 16, 2))
    } else if s == "int8x8x3_t"@ {
        Some(ARMSIMDType::SIMDArr(ARMBaseType::Int8, 8, 3))
    } else if s == "int8x16x3_t"@ {
        Some(ARMSIMDType::SIMDArr(ARMBaseType::Int8, 16, 3))
    } else if s == "uint8x8x3_t"@ {
        Some(ARMSIMDType::SIMDArr(ARMBaseType::UInt8, 8, 3))
    } else if s == "uint8x16x3_t"@ {
        Some(ARMSIMDType::SIMDArr(ARMBaseType::UInt8, 16, 3))
    } else if s == "int8x8x4_t"@ {
        Some(ARMSIMDType::SIMDArr(ARMBaseType::Int8, 8, 4))
    } else if s == "int8x16x4_t"@ {
        Some(ARMSIMDType::SIMDArr(ARMBaseType::Int8, 16, 4))
    } else if s == "uint8x8x4_t"@ {
        Some(ARMSIMDType::SIMDArr(ARMBaseType::UInt8, 8, 4))
    } else if s == "uint8x16x4_t"@ {
        Some(ARMSIMDType::SIMDArr(ARMBaseType::UInt8, 16, 4))
    } else if s == "int16x4x2_t"@ {
        Some(ARMSIMDType::SIMDArr(ARMBaseType::Int16, 4, 2))
    } else if s == "int16x8x2_t"@ {
        Some(ARMSIMDType::SIMDArr(ARMBaseType::Int16, 8, 2))
    } else if s == "uint16x4x2_t"@ {
        Some(ARMSIMDType::SIMDArr(ARMBaseType::UInt16, 4, 2))
    } else if s == "uint16x8x2_t"@ {
        Some(ARMSIMDType::SIMDArr(ARMBaseType::UInt16, 8, 2))
    } else if s == "int16x4x3_t"@ {
        Some(ARMSIMDType::SIMDArr(ARMBaseType::Int16, 4, 3))
    } else if s == "int16x8x3_t"@ {
        Some(ARMSIMDType::SIMDArr(ARMBaseType::Int16, 8, 3))
    } else if s == "uint16x4x3_t"@ {
        Some(ARMSIMDType::SIMDArr(ARMBaseType::UInt16, 4, 3))
    } else if s == "uint16x8x3_t"@ {
        Some(ARMSIMDType::SIMDArr(ARMBaseType::UInt16, 8, 3))
    } else if s == "int16x4x4_t"@ {
        Some(ARMSIMDType::SIMDArr(ARMBaseType::Int16, 4, 4))
    } else if s == "int16x8x4_t"@ {
        Some(ARMSIMDType::SIMDArr(ARMBaseType::Int16, 8, 4))
    } else if s == "uint16x4x4_t"@ {
        Some(ARMSIMDType::SIMDArr(ARMBaseType::UInt16, 4, 4))
    } else if s == "uint16x8x4_t"@ {
        Some(ARMSIMDType::SIMDArr(ARMBaseType::UInt16, 8, 4))
    } else if s == "int32x2x2_t"@ {
        Some(ARMSIMDType::SIMDArr(ARMBaseType::Int32, 2, 2))
    } else if s == "int32x4x2_t"@ {
        Some(ARMSIMDType::SIMDArr(ARMBaseType::Int32, 4, 2))
    } else if s == "uint32x2x2_t"@ {
        Some(ARMSIMDType::SIMDArr(ARMBaseType::UInt32, 2, 2))
    } else if s == "uint32x4x2_t"@ {
        Some(ARMSIMDType::SIMDArr(ARMBaseType::UInt32, 4, 2))
    } else if s == "int32x2x3_t"@ {
        Some(ARMSIMDType::SIMDArr(ARMBaseType::Int32, 2, 3))
    } else if s == "int32x4x3_t"@ {
        Some(ARMSIMDType::SIMDArr(ARMBaseType::Int32, 4, 3))
    } else if s == "uint32x2x3_t"@ {
        Some(ARMSIMDType::SIMDArr(ARMBaseType::UInt32, 2, 3))
    } else if s == "uint32x4x3_t"@ {
        Some(ARMSIMDType::SIMDArr(ARMBaseType::UInt32, 4, 3))
    } else if s == "int32x2x4_t"@ {
        Some(ARMSIMDType::SIMDArr(ARMBaseType::Int32, 2, 4))
    } else if s == "int32x4x4_t"@ {
        Some(ARMSIMDType::SIMDArr(ARMBaseType::Int32, 4, 4))
    } else if s == "uint32x2x4_t"@ {
        Some(ARMSIMDType::SIMDArr(ARMBaseType::UInt32, 2, 4))
    } else if s == "uint32x4x4_t"@ {
        Some(ARMSIMDType::SIMDArr(ARMBaseType::UInt32, 4, 4))
    } else if s == "int64x1x2_t"@ {
        Some(ARMSIMDType::SIMDArr(ARMBaseType::Int64, 1, 2))
    } else if s == "int64x2x2_t"@ {
        Some(ARMSIMDType::SIMDArr(ARMBaseType::Int64, 2, 2))
    } else if s == "uint64x1x2_t"@ {
        Some(ARMSIMDType::SIMDArr(ARMBaseType::UInt64, 1, 2))
    } else if s == "uint64x2x2_t"@ {
        Some(ARMSIMDType::SIMDArr(ARMBaseType::UInt64, 2, 2))
    } else if s == "int64x1x3_t"@ {
        Some(ARMSIMDType::SIMDArr(ARMBaseType::Int64, 1, 3))
    } else if s == "int64x2x3_t"@ {
        Some(ARMSIMDType::SIMDArr(ARMBaseType::Int64, 2, 3))
    } else if s == "uint64x1x3_t"@ {
        Some(ARMSIMDType::SIMDArr(ARMBaseType::UInt64, 1, 3))
    } else if s == "uint64x2x3_t"@ {
        Some(ARMSIMDType::SIMDArr(ARMBaseType::UInt64, 2, 3))
    } else if s == "int64x1x4_t"@ {
        Some(ARMSIMDType::SIMDArr(ARMBaseType::Int64, 1, 4))
    } else if s == "int64x2x4_t"@ {
        Some(ARMSIMDType::SIMDArr(ARMBaseType::Int64, 2, 4))
    } else if s == "uint64x1x4_t"@ {
        Some(ARMSIMDType::SIMDArr(ARMBaseType::UInt64, 1, 4))
    } else if s == "uint64x2x4_t"@ {
        Some(ARMSIMDType::SIMDArr(ARMBaseType::UInt64, 2, 4))
    } else if s == "float16x4x2_t"@ {
        Some(ARMSIMDType::SIMDArr(ARMBaseType::Float16, 4, 2))
    } else if s == "float16x8x2_t"@ {
        Some(ARMSIMDType::SIMDArr(ARMBaseType::Float16, 8, 2))
    } else if s == "float32x2x2_t"@ {
        Some(ARMSIMDType::SIMDArr(ARMBaseType::Float32, 2, 2))
    } else if s == "float32x4x2_t"@ {
        Some(ARMSIMDType::SIMDArr(ARMBaseType::Float32, 4, 2))
    } else if s == "float64x1x2_t"@ {
        Some(ARMSIMDType::SIMDArr(ARMBaseType::Float64, 1, 2))
    } else if s == "float64x2x2_t"@ {
        Some(ARMSIMDType::SIMDArr(ARMBaseType::Float64, 2, 2))
    } else if s == "float16x4x3_t"@ {
        Some(ARMSIMDType::SIMDArr(ARMBaseType::Float16, 4, 3))
    } else if s == "float16x8x3_t"@ {
        Some(ARMSIMDType::SIMDArr(ARMBaseType::Float16, 8, 3))
    } else if s == "float32x2x3_t"@ {
        Some(ARMSIMDType::SIMDArr(ARMBaseType::Float32, 2, 3))
    } else if s == "float32x4x3_t"@ {
        Some(ARMSIMDType::SIMDArr(ARMBaseType::Float32, 4, 3))
    } else if s == "float64x1x3_t"@ {
        Some(ARMSIMDType::SIMDArr(ARMBaseType::Float64, 1, 3))
    } else if s == "float64x2x3_t"@ {
        Some(ARMSIMDType::SIMDArr(ARMBaseType::Float64, 2, 3))
    } else if s == "float16x4x4_t"@ {
        Some(ARMSIMDType::SIMDArr(ARMBaseType::Float16, 4, 4))
    } else if s == "float16x8x4_t"@ {
        Some(ARMSIMDType::SIMDArr(ARMBaseType::Float16, 8, 4))
    } else if s == "float32x2x4_t"@ {
        Some(ARMSIMDType::SIMDArr(ARMBaseType::Float32, 2, 4))
    } else if s == "float32x4x4_t"@ {
        Some(ARMSIMDType::SIMDArr(ARMBaseType::Float32, 4, 4))
    } else if s == "float64x1x4_t"@ {
        Some(ARMSIMDType::SIMDArr(ARMBaseType::Float64, 1, 4))
    } else if s == "float64x2x4_t"@ {
        Some(ARMSIMDType::SIMDArr(ARMBaseType::Float64, 2, 4))
    } else if s == "poly8x8x2_t"@ {
        Some(ARMSIMDType::SIMDArr(ARMBaseType::Poly8, 8, 2))
    } else if s == "poly8x16x2_t"@ {
        Some(ARMSIMDType::SIMDArr(ARMBaseType::Poly8, 16, 2))
    } else if s == "poly16x4x2_t"@ {
        Some(ARMSIMDType::SIMDArr(ARMBaseType::Poly16, 4, 2))
    } else if s == "poly16x8x2_t"@ {
        Some(ARMSIMDType::SIMDArr(ARMBaseType::Poly16, 8, 2))
    } else if s == "poly32x2x2_t"@ {
        Some(ARMSIMDType::SIMDArr(ARMBaseType::Poly32, 2, 2))
    } else if s == "poly32x4x2_t"@ {
        Some(ARMSIMDType::SIMDArr(ARMBaseType::Poly32, 4, 2))
    } else if s == "poly64x1x2_t"@ {
        Some(ARMSIMDType::SIMDArr(ARMBaseType::Poly64, 1, 2))
    } else if s == "poly64x2x2_t"@ {
        Some(ARMSIMDType::SIMDArr(ARMBaseType::Poly64, 2, 2))
    } else if s == "poly8x8x3_t"@ {
        Some(ARMSIMDType::SIMDArr(ARMBaseType::Poly8, 8, 3))
    } else if s == "poly8x16x3_t"@ {
        Some(ARMSIMDType::SIMDArr(ARMBaseType::Poly8, 16, 3))
    } else if s == "poly16x4x3_t"@ {
        Some(ARMSIMDType::SIMDArr(ARMBaseType::Poly16, 4, 3))
    } else if s == "poly16x8x3_t"@ {
        Some(ARMSIMDType::SIMDArr(ARMBaseType::Poly16, 8, 3))
    } else if s == "poly32x2x3_t"@ {
        Some(ARMSIMDType::SIMDArr(ARMBaseType::Poly32, 2, 3))
    } else if s == "poly32x4x3_t"@ {
        Some(ARMSIMDType::SIMDArr(ARMBaseType::Poly32, 4, 3))
    } else if s == "poly64x1x3_t"@ {
        Some(ARMSIMDType::SIMDArr(ARMBaseType::Poly64, 1, 3))
    } else if s == "poly64x2x3_t"@ {
        Some(ARMSIMDType::SIMDArr(ARMBaseType::Poly64, 2, 3))
    } else if s == "poly8x8x4_t"@ {
        Some(ARMSIMDType::SIMDArr(ARMBaseType::Poly8, 8, 4))
    } else if s == "poly8x16x4_t"@ {
        Some(ARMSIMDType::SIMDArr(ARMBaseType::Poly8, 16, 4))
    } else if s == "poly16x4x4_t"@ {
        Some(ARMSIMDType::SIMDArr(ARMBaseType::Poly16, 4, 4))
    } else if s == "poly16x8x4_t"@ {
        Some(ARMSIMDType::SIMDArr(ARMBaseType::Poly16, 8, 4))
    } else if s == "poly32x2x4_t"@ {
        Some(ARMSIMDType::SIMDArr(ARMBaseType::Poly32, 2, 4))
    } else if s == "poly32x4x4_t"@ {
        Some(ARMSIMDType::SIMDArr(ARMBaseType::Poly32, 4, 4))
    } else if s == "poly64x1x4_t"@ {
        Some(ARMSIMDType::SIMDArr(ARMBaseType::Poly64, 1, 4))
    } else if s == "poly64x2x4_t"@ {
        Some(ARMSIMDType::SIMDArr(ARMBaseType::Poly64, 2, 4))
    } else if s == "bfloat16_t"@ {
        Some(ARMSIMDType::Primitive(ARMBaseType::BFloat16))
    } else if s == "bfloat16x4_t"@ {
        Some(ARMSIMDType::SIMD(ARMBaseType::BFloat16, 4))
    } else if s == "bfloat16x8_t"@ {
        Some(ARMSIMDType::SIMD(ARMBaseType::BFloat16, 8))
    } else {
        None
    }
}

/// Parse a catalog type name.
pub fn parse_arm_simd_type(s: &str) -> (r: Option<ARMSIMDType>)
    ensures
        r == spec_parse_arm_simd_type(s@),
{
    if str_eq(s, "void") {
        Some(ARMSIMDType::Primitive(ARMBaseType::Void))
    } else if str_eq(s, "int8_t") {
        Some(ARMSIMDType::Primitive(ARMBaseType::Int8))
    } else if str_eq(s, "int16_t") {
        Some(ARMSIMDType::Primitive(ARMBaseType::Int16))
    } else if str_eq(s, "int32_t") {
        Some(ARMSIMDType::Primitive(ARMBaseType::Int32))
    } else if str_eq(s, "int64_t") {
        Some(ARMSIMDType::Primitive(ARMBaseType::Int64))
    } else if str_eq(s, "uint8_t") {
        Some(ARMSIMDType::Primitive(ARMBaseType::UInt8))
    } else if str_eq(s, "uint16_t") {
        Some(ARMSIMDType::Primitive(ARMBaseType::UInt16))
    } else if str_eq(s, "uint32_t") {
        Some(ARMSIMDType::Primitive(ARMBaseType::UInt32))
    } else if str_eq(s, "uint64_t") {
        Some(ARMSIMDType::Primitive(ARMBaseType::UInt64))
    } else if str_eq(s, "float16_t") {
        Some(ARMSIMDType::Primitive(ARMBaseType::Float16))
    } else if str_eq(s, "float32_t") {
        Some(ARMSIMDType::Primitive(ARMBaseType::Float32))
    } else if str_eq(s, "float64_t") {
        Some(ARMSIMDType::Primitive(ARMBaseType::Float64))
    } else if str_eq(s, "poly8_t") {
        Some(ARMSIMDType::Primitive(ARMBaseType::Poly8))
    } else if str_eq(s, "poly16_t") {
        Some(ARMSIMDType::Primitive(ARMBaseType::Poly16))
    } else if str_eq(s, "poly32_t") {
        Some(ARMSIMDType::Primitive(ARMBaseType::Poly32))
    } else if str_eq(s, "poly64_t") {
        Some(ARMSIMDType::Primitive(ARMBaseType::Poly64))
    } else if str_eq(s, "poly128_t") {
        Some(ARMSIMDType::Primitive(ARMBaseType::Poly128))
    } else if str_eq(s, "int8x8_t") {
        Some(ARMSIMDType::SIMD(ARMBaseType::Int8, 8))
    } else if str_eq(s, "int8x16_t") {
        Some(ARMSIMDType::SIMD(ARMBaseType::Int8, 16))
    } else if str_eq(s, "int16x4_t") {
        Some(ARMSIMDType::SIMD(ARMBaseType::Int16, 4))
    } else if str_eq(s, "int16x8_t") {
        Some(ARMSIMDType::SIMD(ARMBaseType::Int16, 8))
    } else if str_eq(s, "int32x2_t") {
        Some(ARMSIMDType::SIMD(ARMBaseType::Int32, 2))
    } else if str_eq(s, "int32x4_t") {
        Some(ARMSIMDType::SIMD(ARMBaseType::Int32, 4))
    } else if str_eq(s, "int64x1_t") {
        Some(ARMSIMDType::SIMD(ARMBaseType::Int64, 1))
    } else if str_eq(s, "int64x2_t") {
        Some(ARMSIMDType::SIMD(ARMBaseType::Int64, 2))
    } else if str_eq(s, "uint8x8_t") {
        Some(ARMSIMDType::SIMD(ARMBaseType::UInt8, 8))
    } else if str_eq(s, "uint8x16_t") {
        Some(ARMSIMDType::SIMD(ARMBaseType::UInt8, 16))
    } else if str_eq(s, "uint16x4_t") {
        Some(ARMSIMDType::SIMD(ARMBaseType::UInt16, 4))
    } else if str_eq(s, "uint16x8_t") {
        Some(ARMSIMDType::SIMD(ARMBaseType::UInt16, 8))
    } else if str_eq(s, "uint32x2_t") {
        Some(ARMSIMDType::SIMD(ARMBaseType::UInt32, 2))
    } else if str_eq(s, "uint32x4_t") {
        Some(ARMSIMDType::SIMD(ARMBaseType::UInt32, 4))
    } else if str_eq(s, "uint64x1_t") {
        Some(ARMSIMDType::SIMD(ARMBaseType::UInt64, 1))
    } else if str_eq(s, "uint64x2_t") {
        Some(ARMSIMDType::SIMD(ARMBaseType::UInt64, 2))
    } else if str_eq(s, "float16x4_t") {
        Some(ARMSIMDType::SIMD(ARMBaseType::Float16, 4))
    } else if str_eq(s, "float16x8_t") {
        Some(ARMSIMDType::SIMD(ARMBaseType::Float16, 8))
    } else if str_eq(s, "float32x2_t") {
        Some(ARMSIMDType::SIMD(ARMBaseType::Float32, 2))
    } else if str_eq(s, "float32x4_t") {
        Some(ARMSIMDType::SIMD(ARMBaseType::Float32, 4))
    } else if str_eq(s, "float64x1_t") {
        Some(ARMSIMDType::SIMD(ARMBaseType::Float64, 1))
    } else if str_eq(s, "float64x2_t") {
        Some(ARMSIMDType::SIMD(ARMBaseType::Float64, 2))
    } else if str_eq(s, "poly8x8_t") {
        Some(ARMSIMDType::SIMD(ARMBaseType::Poly8, 8))
    } else if str_eq(s, "poly8x16_t") {
        Some(ARMSIMDType::SIMD(ARMBaseType::Poly8, 16))
    } else if str_eq(s, "poly16x4_t") {
        Some(ARMSIMDType::SIMD(ARMBaseType::Poly16, 4))
    } else if str_eq(s, "poly16x8_t") {
        Some(ARMSIMDType::SIMD(ARMBaseType::Poly16, 8))
    } else if str_eq(s, "poly32x2_t") {
        Some(ARMSIMDType::SIMD(ARMBaseType::Poly32, 2))
    } else if str_eq(s, "poly32x4_t") {
        Some(ARMSIMDType::SIMD(ARMBaseType::Poly32, 4))
    } else if str_eq(s, "poly64x1_t") {
        Some(ARMSIMDType::SIMD(ARMBaseType::Poly64, 1))
    } else if str_eq(s, "poly64x2_t") {
        Some(ARMSIMDType::SIMD(ARMBaseType::Poly64, 2))
    } else if str_eq(s, "int8x8x2_t") {
        Some(ARMSIMDType::SIMDArr(ARMBaseType::Int8, 8, 2))
    } else if str_eq(s, "int8x16x2_t") {
        Some(ARMSIMDType::SIMDArr(ARMBaseType::Int8, 16, 2))
    } else if str_eq(s, "uint8x8x2_t") {
        Some(ARMSIMDType::SIMDArr(ARMBaseType::UInt8, 8, 2))
    } else if str_eq(s, "uint8x16x2_t") {
        Some(ARMSIMDType::SIMDArr(ARMBaseType::UInt8, 16, 2))
    } else if str_eq(s, "int8x8x3_t") {
        Some(ARMSIMDType::SIMDArr(ARMBaseType::Int8, 8, 3))
    } else if str_eq(s, "int8x16x3_t") {
        Some(ARMSIMDType::SIMDArr(ARMBaseType::Int8, 16, 3))
    } else if str_eq(s, "uint8x8x3_t") {
        Some(ARMSIMDType::SIMDArr(ARMBaseType::UInt8, 8, 3))
    } else if str_eq(s, "uint8x16x3_t") {
        Some(ARMSIMDType::SIMDArr(ARMBaseType::UInt8, 16, 3))
    } else if str_eq(s, "int8x8x4_t") {
        Some(ARMSIMDType::SIMDArr(ARMBaseType::Int8, 8, 4))
    } else if str_eq(s, "int8x16x4_t") {
        Some(ARMSIMDType::SIMDArr(ARMBaseType::Int8, 16, 4))
    } else if str_eq(s, "uint8x8x4_t") {
        Some(ARMSIMDType::SIMDArr(ARMBaseType::UInt8, 8, 4))
    } else if str_eq(s, "uint8x16x4_t") {
        Some(ARMSIMDType::SIMDArr(ARMBaseType::UInt8, 16, 4))
    } else if str_eq(s, "int16x4x2_t") {
        Some(ARMSIMDType::SIMDArr(ARMBaseType::Int16, 4, 2))
    } else if str_eq(s, "int16x8x2_t") {
        Some(ARMSIMDType::SIMDArr(ARMBaseType::Int16, 8, 2))
    } else if str_eq(s, "uint16x4x2_t") {
        Some(ARMSIMDType::SIMDArr(ARMBaseType::UInt16, 4, 2))
    } else if str_eq(s, "uint16x8x2_t") {
        Some(ARMSIMDType::SIMDArr(ARMBaseType::UInt16, 8, 2))
    } else if str_eq(s, "int16x4x3_t") {
        Some(ARMSIMDType::SIMDArr(ARMBaseType::Int16, 4, 3))
    } else if str_eq(s, "int16x8x3_t") {
        Some(ARMSIMDType::SIMDArr(ARMBaseType::Int16, 8, 3))
    } else if str_eq(s, "uint16x4x3_t") {
        Some(ARMSIMDType::SIMDArr(ARMBaseType::UInt16, 4, 3))
    } else if str_eq(s, "uint16x8x3_t") {
        Some(ARMSIMDType::SIMDArr(ARMBaseType::UInt16, 8, 3))
    } else if str_eq(s, "int16x4x4_t") {
        Some(ARMSIMDType::SIMDArr(ARMBaseType::Int16, 4, 4))
    } else if str_eq(s, "int16x8x4_t") {
        Some(ARMSIMDType::SIMDArr(ARMBaseType::Int16, 8, 4))
    } else if str_eq(s, "uint16x4x4_t") {
        Some(ARMSIMDType::SIMDArr(ARMBaseType::UInt16, 4, 4))
    } else if str_eq(s, "uint16x8x4_t") {
        Some(ARMSIMDType::SIMDArr(ARMBaseType::UInt16, 8, 4))
    } else if str_eq(s, "int32x2x2_t") {
        Some(ARMSIMDType::SIMDArr(ARMBaseType::Int32, 2, 2))
    } else if str_eq(s, "int32x4x2_t") {
        Some(ARMSIMDType::SIMDArr(ARMBaseType::Int32, 4, 2))
    } else if str_eq(s, "uint32x2x2_t") {
        Some(ARMSIMDType::SIMDArr(ARMBaseType::UInt32, 2, 2))
    } else if str_eq(s, "uint32x4x2_t") {
        Some(ARMSIMDType::SIMDArr(ARMBaseType::UInt32, 4, 2))
    } else if str_eq(s, "int32x2x3_t") {
        Some(ARMSIMDType::SIMDArr(ARMBaseType::Int32, 2, 3))
    } else if str_eq(s, "int32x4x3_t") {
        Some(ARMSIMDType::SIMDArr(ARMBaseType::Int32, 4, 3))
    } else if str_eq(s, "uint32x2x3_t") {
        Some(ARMSIMDType::SIMDArr(ARMBaseType::UInt32, 2, 3))
    } else if str_eq(s, "uint32x4x3_t") {
        Some(ARMSIMDType::SIMDArr(ARMBaseType::UInt32, 4, 3))
    } else if str_eq(s, "int32x2x4_t") {
        Some(ARMSIMDType::SIMDArr(ARMBaseType::Int32, 2, 4))
    } else if str_eq(s, "int32x4x4_t") {
        Some(ARMSIMDType::SIMDArr(ARMBaseType::Int32, 4, 4))
    } else if str_eq(s, "uint32x2x4_t") {
        Some(ARMSIMDType::SIMDArr(ARMBaseType::UInt32, 2, 4))
    } else if str_eq(s, "uint32x4x4_t") {
        Some(ARMSIMDType::SIMDArr(ARMBaseType::UInt32, 4, 4))
    } else if str_eq(s, "int64x1x2_t") {
        Some(ARMSIMDType::SIMDArr(ARMBaseType::Int64, 1, 2))
    } else if str_eq(s, "int64x2x2_t") {
        Some(ARMSIMDType::SIMDArr(ARMBaseType::Int64, 2, 2))
    } else if str_eq(s, "uint64x1x2_t") {
        Some(ARMSIMDType::SIMDArr(ARMBaseType::UInt64, 1, 2))
    } else if str_eq(s, "uint64x2x2_t") {
        Some(ARMSIMDType::SIMDArr(ARMBaseType::UInt64, 2, 2))
    } else if str_eq(s, "int64x1x3_t") {
        Some(ARMSIMDType::SIMDArr(ARMBaseType::Int64, 1, 3))
    } else if str_eq(s, "int64x2x3_t") {
        Some(ARMSIMDType::SIMDArr(ARMBaseType::Int64, 2, 3))
    } else if str_eq(s, "uint64x1x3_t") {
        Some(ARMSIMDType::SIMDArr(ARMBaseType::UInt64, 1, 3))
    } else if str_eq(s, "uint64x2x3_t") {
        Some(ARMSIMDType::SIMDArr(ARMBaseType::UInt64, 2, 3))
    } else if str_eq(s, "int64x1x4_t") {
        Some(ARMSIMDType::SIMDArr(ARMBaseType::Int64, 1, 4))
    } else if str_eq(s, "int64x2x4_t") {
        Some(ARMSIMDType::SIMDArr(ARMBaseType::Int64, 2, 4))
    } else if str_eq(s, "uint64x1x4_t") {
        Some(ARMSIMDType::SIMDArr(ARMBaseType::UInt64, 1, 4))
    } else if str_eq(s, "uint64x2x4_t") {
        Some(ARMSIMDType::SIMDArr(ARMBaseType::UInt64, 2, 4))
    } else if str_eq(s, "float16x4x2_t") {
        Some(ARMSIMDType::SIMDArr(ARMBaseType::Float16, 4, 2))
    } else if str_eq(s, "float16x8x2_t") {
        Some(ARMSIMDType::SIMDArr(ARMBaseType::Float16, 8, 2))
    } else if str_eq(s, "float32x2x2_t") {
        Some(ARMSIMDType::SIMDArr(ARMBaseType::Float32, 2, 2))
    } else if str_eq(s, "float32x4x2_t") {
        Some(ARMSIMDType::SIMDArr(ARMBaseType::Float32, 4, 2))
    } else if str_eq(s, "float64x1x2_t") {
        Some(ARMSIMDType::SIMDArr(ARMBaseType::Float64, 1, 2))
    } else if str_eq(s, "float64x2x2_t") {
        Some(ARMSIMDType::SIMDArr(ARMBaseType::Float64, 2, 2))
    } else if str_eq(s, "float16x4x3_t") {
        Some(ARMSIMDType::SIMDArr(ARMBaseType::Float16, 4, 3))
    } else if str_eq(s, "float16x8x3_t") {
        Some(ARMSIMDType::SIMDArr(ARMBaseType::Float16, 8, 3))
    } else if str_eq(s, "float32x2x3_t") {
        Some(ARMSIMDType::SIMDArr(ARMBaseType::Float32, 2, 3))
    } else if str_eq(s, "float32x4x3_t") {
        Some(ARMSIMDType::SIMDArr(ARMBaseType::Float32, 4, 3))
    } else if str_eq(s, "float64x1x3_t") {
        Some(ARMSIMDType::SIMDArr(ARMBaseType::Float64, 1, 3))
    } else if str_eq(s, "float64x2x3_t") {
        Some(ARMSIMDType::SIMDArr(ARMBaseType::Float64, 2, 3))
    } else if str_eq(s, "float16x4x4_t") {
        Some(ARMSIMDType::SIMDArr(ARMBaseType::Float16, 4, 4))
    } else if str_eq(s, "float16x8x4_t") {
        Some(ARMSIMDType::SIMDArr(ARMBaseType::Float16, 8, 4))
    } else if str_eq(s, "float32x2x4_t") {
        Some(ARMSIMDType::SIMDArr(ARMBaseType::Float32, 2, 4))
    } else if str_eq(s, "float32x4x4_t") {
        Some(ARMSIMDType::SIMDArr(ARMBaseType::Float32, 4, 4))
    } else if str_eq(s, "float64x1x4_t") {
        Some(ARMSIMDType::SIMDArr(ARMBaseType::Float64, 1, 4))
    } else if str_eq(s, "float64x2x4_t") {
        Some(ARMSIMDType::SIMDArr(ARMBaseType::Float64, 2, 4))
    } else if str_eq(s, "poly8x8x2_t") {
        Some(ARMSIMDType::SIMDArr(ARMBaseType::Poly8, 8, 2))
    } else if str_eq(s, "poly8x16x2_t") {
        Some(ARMSIMDType::SIMDArr(ARMBaseType::Poly8, 16, 2))
    } else if str_eq(s, "poly16x4x2_t") {
        Some(ARMSIMDType::SIMDArr(ARMBaseType::Poly16, 4, 2))
    } else if str_eq(s, "poly16x8x2_t") {
        Some(ARMSIMDType::SIMDArr(ARMBaseType::Poly16, 8, 2))
    } else if str_eq(s, "poly32x2x2_t") {
        Some(ARMSIMDType::SIMDArr(ARMBaseType::Poly32, 2, 2))
    } else if str_eq(s, "poly32x4x2_t") {
        Some(ARMSIMDType::SIMDArr(ARMBaseType::Poly32, 4, 2))
    } else if str_eq(s, "poly64x1x2_t") {
        Some(ARMSIMDType::SIMDArr(ARMBaseType::Poly64, 1, 2))
    } else if str_eq(s, "poly64x2x2_t") {
        Some(ARMSIMDType::SIMDArr(ARMBaseType::Poly64, 2, 2))
    } else if str_eq(s, "poly8x8x3_t") {
        Some(ARMSIMDType::SIMDArr(ARMBaseType::Poly8, 8, 3))
    } else if str_eq(s, "poly8x16x3_t") {
        Some(ARMSIMDType::SIMDArr(ARMBaseType::Poly8, 16, 3))
    } else if str_eq(s, "poly16x4x3_t") {
        Some(ARMSIMDType::SIMDArr(ARMBaseType::Poly16, 4, 3))
    } else if str_eq(s, "poly16x8x3_t") {
        Some(ARMSIMDType::SIMDArr(ARMBaseType::Poly16, 8, 3))
    } else if str_eq(s, "poly32x2x3_t") {
        Some(ARMSIMDType::SIMDArr(ARMBaseType::Poly32, 2, 3))
    } else if str_eq(s, "poly32x4x3_t") {
        Some(ARMSIMDType::SIMDArr(ARMBaseType::Poly32, 4, 3))
    } else if str_eq(s, "poly64x1x3_t") {
        Some(ARMSIMDType::SIMDArr(ARMBaseType::Poly64, 1, 3))
    } else if str_eq(s, "poly64x2x3_t") {
        Some(ARMSIMDType::SIMDArr(ARMBaseType::Poly64, 2, 3))
    } else if str_eq(s, "poly8x8x4_t") {
        Some(ARMSIMDType::SIMDArr(ARMBaseType::Poly8, 8, 4))
    } else if str_eq(s, "poly8x16x4_t") {
        Some(ARMSIMDType::SIMDArr(ARMBaseType::Poly8, 16, 4))
    } else if str_eq(s, "poly16x4x4_t") {
        Some(ARMSIMDType::SIMDArr(ARMBaseType::Poly16, 4, 4))
    } else if str_eq(s, "poly16x8x4_t") {
        Some(ARMSIMDType::SIMDArr(ARMBaseType::Poly16, 8, 4))
    } else if str_eq(s, "poly32x2x4_t") {
        Some(ARMSIMDType::SIMDArr(ARMBaseType::Poly32, 2, 4))
    } else if str_eq(s, "poly32x4x4_t") {
        Some(ARMSIMDType::SIMDArr(ARMBaseType::Poly32, 4, 4))
    } else if str_eq(s, "poly64x1x4_t") {
        Some(ARMSIMDType::SIMDArr(ARMBaseType::Poly64, 1, 4))
    } else if str_eq(s, "poly64x2x4_t") {
        Some(ARMSIMDType::SIMDArr(ARMBaseType::Poly64, 2, 4))
    } else if str_eq(s, "bfloat16_t") {
        Some(ARMSIMDType::Primitive(ARMBaseType::BFloat16))
    } else if str_eq(s, "bfloat16x4_t") {
        Some(ARMSIMDType::SIMD(ARMBaseType::BFloat16, 4))
    } else if str_eq(s, "bfloat16x8_t") {
        Some(ARMSIMDType::SIMD(ARMBaseType::BFloat16, 8))
    } else {
        None
    }
}

} // verus!

verus! {

pub open spec fn spec_is_arm_base_type_floating_point(b: ARMBaseType) -> bool {
    match b {
        ARMBaseType::BFloat16 => true,
        ARMBaseType::Float16 => true,
        ARMBaseType::Float32 => true,
        ARMBaseType::Float64 => true,
        _ => false,
    }
}

pub fn is_arm_base_type_floating_point(base_type: ARMBaseType) -> (r: bool)
    ensures
        r == spec_is_arm_base_type_floating_point(base_type),
{
    match base_type {
        ARMBaseType::BFloat16 => true,
        ARMBaseType::Float16 => true,
        ARMBaseType::Float32 => true,
        ARMBaseType::Float64 => true,
        _ => false,
    }
}

pub open spec fn spec_is_arm_simd_type_floating_point(t: ARMSIMDType) -> bool {
    match t {
        ARMSIMDType::Primitive(b) => spec_is_arm_base_type_floating_point(b),
        ARMSIMDType::ConstantIntImmediate(_, _) => false,
        ARMSIMDType::SIMD(b, _) => spec_is_arm_base_type_floating_point(b),
        ARMSIMDType::SIMDArr(b, _, _) => spec_is_arm_base_type_floating_point(b),
    }
}

pub fn is_arm_simd_type_floating_point(simd_type: ARMSIMDType) -> (r: bool)
    ensures
        r == spec_is_arm_simd_type_floating_point(simd_type),
{
    match simd_type {
        ARMSIMDType::Primitive(b) => is_arm_base_type_floating_point(b),
        ARMSIMDType::ConstantIntImmediate(_, _) => false,
        ARMSIMDType::SIMD(b, _) => is_arm_base_type_floating_point(b),
        ARMSIMDType::SIMDArr(b, _, _) => is_arm_base_type_floating_point(b),
    }
}

/// The byte size of a base type.
pub open spec fn spec_arm_base_type_size_bytes(b: ARMBaseType) -> nat {
    match b {
        ARMBaseType::Void => 0,
        ARMBaseType::Int8 => 1,
        ARMBaseType::UInt8 => 1,
        ARMBaseType::Int16 => 2,
        ARMBaseType::UInt16 => 2,
        ARMBaseType::Int32 => 4,
        ARMBaseType::UInt32 => 4,
        ARMBaseType::Int64 => 8,
        ARMBaseType::UInt64 => 8,
        ARMBaseType::Float16 => 2,
        ARMBaseType::Float32 => 4,
        ARMBaseType::Float64 => 8,
        ARMBaseType::BFloat16 => 2,
        ARMBaseType::Poly8 => 1,
        ARMBaseType::Poly16 => 2,
        ARMBaseType::Poly32 => 4,
        ARMBaseType::Poly64 => 8,
        ARMBaseType::Poly128 => 16,
    }
}

pub fn arm_base_type_size_bytes(base_type: ARMBaseType) -> (r: usize)
    requires
        base_type != ARMBaseType::Void,
    ensures
        r == spec_arm_base_type_size_bytes(base_type),
{
    match base_type {
        ARMBaseType::Void => 0,
        ARMBaseType::Int8 => 1,
        ARMBaseType::UInt8 => 1,
        ARMBaseType::Int16 => 2,
        ARMBaseType::UInt16 => 2,
        ARMBaseType::Int32 => 4,
        ARMBaseType::UInt32 => 4,
        ARMBaseType::Int64 => 8,
        ARMBaseType::UInt64 => 8,
        ARMBaseType::Float16 => 2,
        ARMBaseType::Float32 => 4,
        ARMBaseType::Float64 => 8,
        ARMBaseType::BFloat16 => 2,
        ARMBaseType::Poly8 => 1,
        ARMBaseType::Poly16 => 2,
        ARMBaseType::Poly32 => 4,
        ARMBaseType::Poly64 => 8,
        ARMBaseType::Poly128 => 16,
    }
}

/// A vector type with plausible lane and array counts, so that its size and
/// name computations stay in range.
pub open spec fn arm_counts_ok(t: ARMSIMDType) -> bool {
    match t {
        ARMSIMDType::Primitive(_) => true,
        ARMSIMDType::ConstantIntImmediate(_, _) => true,
        ARMSIMDType::SIMD(_, count) => 1 <= count <= 16,
        ARMSIMDType::SIMDArr(_, count, arr) => 1 <= count <= 16 && 1 <= arr <= 4,
    }
}

/// The byte size of a value of an ARM type.
pub open spec fn spec_arm_simd_type_size_bytes(t: ARMSIMDType) -> nat {
    match t {
        ARMSIMDType::Primitive(b) => spec_arm_base_type_size_bytes(b),
        ARMSIMDType::ConstantIntImmediate(_, _) => 0,
        ARMSIMDType::SIMD(b, count) => spec_arm_base_type_size_bytes(b) * (count as nat),
        ARMSIMDType::SIMDArr(b, count, arr) => spec_arm_base_type_size_bytes(b) * (count as nat)
            * (arr as nat),
    }
}

pub fn arm_simd_type_size_bytes(simd_type: ARMSIMDType) -> (r: usize)
    requires
        arm_counts_ok(simd_type),
        !(simd_type is ConstantIntImmediate),
        (match simd_type {
            ARMSIMDType::Primitive(b) => b != ARMBaseType::Void,
            ARMSIMDType::SIMD(b, _) => b != ARMBaseType::Void,
            ARMSIMDType::SIMDArr(b, _, _) => b != ARMBaseType::Void,
            _ => true,
        }),
    ensures
        r == spec_arm_simd_type_size_bytes(simd_type),
{
    match simd_type {
        ARMSIMDType::Primitive(b) => arm_base_type_size_bytes(b),
        ARMSIMDType::ConstantIntImmediate(_, _) => 0,
        ARMSIMDType::SIMD(b, count) => {
            let base = arm_base_type_size_bytes(b);
            proof {
                assert(base * (count as usize) <= 256) by (nonlinear_arith)
                    requires
                        base <= 16,
                        0 <= count <= 16,
                ;
            }
            base * (count as usize)
        },
        ARMSIMDType::SIMDArr(b, count, arr) => {
            let base = arm_base_type_size_bytes(b);
            proof {
                assert(base * (count as usize) <= 256 && base * (count as usize) * (arr as usize)
                    <= 1024) by (nonlinear_arith)
                    requires
                        base <= 16,
                        0 <= count <= 16,
                        0 <= arr <= 4,
                ;
            }
            base * (count as usize) * (arr as usize)
        },
    }
}

pub open spec fn spec_is_arm_simd_type_base_type(t: ARMSIMDType, b: ARMBaseType) -> bool {
    match t {
        ARMSIMDType::Primitive(bt) => bt == b,
        ARMSIMDType::ConstantIntImmediate(_, _) => false,
        ARMSIMDType::SIMD(bt, _) => bt == b,
        ARMSIMDType::SIMDArr(bt, _, _) => bt == b,
    }
}

pub fn is_arm_simd_type_base_type(simd_type: ARMSIMDType, in_base_type: ARMBaseType) -> (r: bool)
    ensures
        r == spec_is_arm_simd_type_base_type(simd_type, in_base_type),
{
    match simd_type {
        ARMSIMDType::Primitive(bt) => bt == in_base_type,
        ARMSIMDType::ConstantIntImmediate(_, _) => false,
        ARMSIMDType::SIMD(bt, _) => bt == in_base_type,
        ARMSIMDType::SIMDArr(bt, _, _) => bt == in_base_type,
    }
}

pub fn is_arm_simd_type_simd(simd_type: ARMSIMDType) -> (r: bool)
    ensures
        r == (simd_type is SIMD || simd_type is SIMDArr),
{
    match simd_type {
        ARMSIMDType::SIMD(_, _) => true,
        ARMSIMDType::SIMDArr(_, _, _) => true,
        _ => false,
    }
}

/// The C++ spelling of a base type.
pub open spec fn spec_arm_base_type_cpp_name(b: ARMBaseType) -> Seq<char> {
    match b {
        ARMBaseType::Void => "void"@,
        ARMBaseType::Int8 => "int8_t"@,
        ARMBaseType::UInt8 => "uint8_t"@,
        ARMBaseType::Int16 => "int16_t"@,
        ARMBaseType::UInt16 => "uint16_t"@,
        ARMBaseType::Int32 => "int32_t"@,
        ARMBaseType::UInt32 => "uint32_t"@,
        ARMBaseType::Int64 => "int64_t"@,
        ARMBaseType::UInt64 => "uint64_t"@,
        ARMBaseType::Float16 => "float16_t"@,
        ARMBaseType::Float32 => "float32_t"@,
        ARMBaseType::Float64 => "float64_t"@,
        ARMBaseType::BFloat16 => "bfloat16_t"@,
        ARMBaseType::Poly8 => "poly8_t"@,
        ARMBaseType::Poly16 => "poly16_t"@,
        ARMBaseType::Poly32 => "poly32_t"@,
        ARMBaseType::Poly64 => "poly64_t"@,
        ARMBaseType::Poly128 => "poly128_t"@,
    }
}

pub fn arm_base_type_to_cpp_type_name(base_type: ARMBaseType) -> (r: &'static str)
    ensures
        r@ == spec_arm_base_type_cpp_name(base_type),
{
    match base_type {
        ARMBaseType::Void => "void",
        ARMBaseType::Int8 => "int8_t",
        ARMBaseType::UInt8 => "uint8_t",
        ARMBaseType::Int16 => "int16_t",
        ARMBaseType::UInt16 => "uint16_t",
        ARMBaseType::Int32 => "int32_t",
        ARMBaseType::UInt32 => "uint32_t",
        ARMBaseType::Int64 => "int64_t",
        ARMBaseType::UInt64 => "uint64_t",
        ARMBaseType::Float16 => "float16_t",
        ARMBaseType::Float32 => "float32_t",
        ARMBaseType::Float64 => "float64_t",
        ARMBaseType::BFloat16 => "bfloat16_t",
        ARMBaseType::Poly8 => "poly8_t",
        ARMBaseType::Poly16 => "poly16_t",
        ARMBaseType::Poly32 => "poly32_t",
        ARMBaseType::Poly64 => "poly64_t",
        ARMBaseType::Poly128 => "poly128_t",
    }
}

/// Every base-type name ends in `_t`, so dropping two characters leaves the
/// stem the vector names are built on.
pub proof fn lemma_arm_base_name_len(b: ARMBaseType)
    ensures
        spec_arm_base_type_cpp_name(b).len() >= 2,
{
    reveal_strlit("void");
    reveal_strlit("int8_t");
    reveal_strlit("uint8_t");
    reveal_strlit("int16_t");
    reveal_strlit("uint16_t");
    reveal_strlit("int32_t");
    reveal_strlit("uint32_t");
    reveal_strlit("int64_t");
    reveal_strlit("uint64_t");
    reveal_strlit("float16_t");
    reveal_strlit("float32_t");
    reveal_strlit("float64_t");
    reveal_strlit("bfloat16_t");
    reveal_strlit("poly8_t");
    reveal_strlit("poly16_t");
    reveal_strlit("poly32_t");
    reveal_strlit("poly64_t");
    reveal_strlit("poly128_t");
}

/// `int8_t` with 16 lanes is spelled `int8x16_t`: the stem, `x`, the lane
/// count, `_t`.
pub open spec fn spec_arm_simd_name(b: ARMBaseType, count: i32) -> Seq<char> {
    let base = spec_arm_base_type_cpp_name(b);
    base.subrange(0, base.len() - 2) + "x"@ + spec_dec_int(count as int) + "_t"@
}

/// An array type appends its array length: `int8x16x2_t`.
pub open spec fn spec_arm_simd_arr_name(b: ARMBaseType, count: i32, arr: i32) -> Seq<char> {
    let base = spec_arm_base_type_cpp_name(b);
    base.subrange(0, base.len() - 2) + "x"@ + spec_dec_int(count as int) + "x"@ + spec_dec_int(
        arr as int,
    ) + "_t"@
}

pub fn arm_make_simd_type_name(base_type_name: &str, count: i32) -> (r: String)
    requires
        base_type_name@.len() >= 2,
        base_type_name.is_ascii(),
    ensures
        r@ =~= base_type_name@.subrange(0, base_type_name@.len() - 2) + "x"@ + spec_dec_int(
            count as int,
        ) + "_t"@,
{
    let n = base_type_name.unicode_len();
    let stem = base_type_name.substring_ascii(0, n - 2);
    let mut s = stem.to_owned();
    s.append("x");
    let d = i32_to_dec(count);
    s.append(d.as_str());
    s.append("_t");
    s
}

pub fn arm_make_simd_arr_type_name(base_type_name: &str, count: i32, array_len: i32) -> (r: String)
    requires
        base_type_name@.len() >= 2,
        base_type_name.is_ascii(),
    ensures
        r@ =~= base_type_name@.subrange(0, base_type_name@.len() - 2) + "x"@ + spec_dec_int(
            count as int,
        ) + "x"@ + spec_dec_int(array_len as int) + "_t"@,
{
    let n = base_type_name.unicode_len();
    let stem = base_type_name.substring_ascii(0, n - 2);
    let mut s = stem.to_owned();
    s.append("x");
    let d = i32_to_dec(count);
    s.append(d.as_str());
    s.append("x");
    let d2 = i32_to_dec(array_len);
    s.append(d2.as_str());
    s.append("_t");
    s
}

/// The C++ spelling of any ARM type; a constant immediate is spelled as a
/// plain 32-bit integer since its value is inlined at each use.
pub open spec fn spec_arm_simd_type_cpp_name(t: ARMSIMDType) -> Seq<char> {
    match t {
        ARMSIMDType::Primitive(b) => spec_arm_base_type_cpp_name(b),
        ARMSIMDType::ConstantIntImmediate(_, _) => spec_arm_base_type_cpp_name(ARMBaseType::Int32),
        ARMSIMDType::SIMD(b, count) => spec_arm_simd_name(b, count),
        ARMSIMDType::SIMDArr(b, count, arr) => spec_arm_simd_arr_name(b, count, arr),
    }
}

pub fn arm_simd_type_to_cpp_type_name(simd_type: ARMSIMDType) -> (r: String)
    ensures
        r@ =~= spec_arm_simd_type_cpp_name(simd_type),
{
    match simd_type {
        ARMSIMDType::Primitive(b) => arm_base_type_to_cpp_type_name(b).to_owned(),
        ARMSIMDType::ConstantIntImmediate(_, _) => arm_base_type_to_cpp_type_name(
            ARMBaseType::Int32,
        ).to_owned(),
        ARMSIMDType::SIMD(b, count) => {
            let base = arm_base_type_to_cpp_type_name(b);
            proof {
                lemma_arm_base_name_len(b);
                lemma_arm_base_names_ascii(b);
            }
            arm_make_simd_type_name(base, count)
        },
        ARMSIMDType::SIMDArr(b, count, arr) => {
            let base = arm_base_type_to_cpp_type_name(b);
            proof {
                lemma_arm_base_name_len(b);
                lemma_arm_base_names_ascii(b);
            }
            arm_make_simd_arr_type_name(base, count, arr)
        },
    }
}

/// All base-type names are ASCII.
pub proof fn lemma_arm_base_names_ascii(b: ARMBaseType)
    ensures
        vstd::utf8::is_ascii_chars(spec_arm_base_type_cpp_name(b)),
{
    reveal_strlit("void");
    reveal_strlit("int8_t");
    reveal_strlit("uint8_t");
    reveal_strlit("int16_t");
    reveal_strlit("uint16_t");
    reveal_strlit("int32_t");
    reveal_strlit("uint32_t");
    reveal_strlit("int64_t");
    reveal_strlit("uint64_t");
    reveal_strlit("float16_t");
    reveal_strlit("float32_t");
    reveal_strlit("float64_t");
    reveal_strlit("bfloat16_t");
    reveal_strlit("poly8_t");
    reveal_strlit("poly16_t");
    reveal_strlit("poly32_t");
    reveal_strlit("poly64_t");
    reveal_strlit("poly128_t");
}

} // verus!

verus! {

/// The per-element suffix of the NEON load intrinsic for a base type.
pub open spec fn spec_arm_load_abbrev(b: ARMBaseType) -> Seq<char> {
    match b {
        ARMBaseType::Void => ""@,
        ARMBaseType::Int8 => "s8"@,
        ARMBaseType::UInt8 => "u8"@,
        ARMBaseType::Int16 => "s16"@,
        ARMBaseType::UInt16 => "u16"@,
        ARMBaseType::Int32 => "s32"@,
        ARMBaseType::UInt32 => "u32"@,
        ARMBaseType::Int64 => "s64"@,
        ARMBaseType::UInt64 => "u64"@,
        ARMBaseType::Float16 => "f16"@,
        ARMBaseType::Float32 => "f32"@,
        ARMBaseType::Float64 => "f64"@,
        ARMBaseType::BFloat16 => "bf16"@,
        ARMBaseType::Poly8 => "p8"@,
        ARMBaseType::Poly16 => "p16"@,
        ARMBaseType::Poly32 => "p32"@,
        ARMBaseType::Poly64 => "p64"@,
        ARMBaseType::Poly128 => "p128"@,
    }
}

pub fn arm_base_type_to_load_abbrev(base_type: ARMBaseType) -> (r: &'static str)
    requires
        base_type != ARMBaseType::Void,
    ensures
        r@ == spec_arm_load_abbrev(base_type),
{
    match base_type {
        ARMBaseType::Void => "",
        ARMBaseType::Int8 => "s8",
        ARMBaseType::UInt8 => "u8",
        ARMBaseType::Int16 => "s16",
        ARMBaseType::UInt16 => "u16",
        ARMBaseType::Int32 => "s32",
        ARMBaseType::UInt32 => "u32",
        ARMBaseType::Int64 => "s64",
        ARMBaseType::UInt64 => "u64",
        ARMBaseType::Float16 => "f16",
        ARMBaseType::Float32 => "f32",
        ARMBaseType::Float64 => "f64",
        ARMBaseType::BFloat16 => "bf16",
        ARMBaseType::Poly8 => "p8",
        ARMBaseType::Poly16 => "p16",
        ARMBaseType::Poly32 => "p32",
        ARMBaseType::Poly64 => "p64",
        ARMBaseType::Poly128 => "p128",
    }
}

/// The NEON load intrinsic that fills a value of a vector type from memory:
/// `vld1_` for 8-byte vectors, `vld1q_` for 16-byte ones, with an `_xN`
/// suffix for vector arrays; empty for shapes no single load fills.
pub open spec fn spec_arm_ld_func(t: ARMSIMDType) -> Seq<char> {
    match t {
        ARMSIMDType::Primitive(_) => ""@,
        ARMSIMDType::ConstantIntImmediate(_, _) => ""@,
        ARMSIMDType::SIMD(b, _) => {
            let size = spec_arm_simd_type_size_bytes(t);
            if size == 8 {
                "vld1_"@ + spec_arm_load_abbrev(b)
            } else if size == 16 {
                "vld1q_"@ + spec_arm_load_abbrev(b)
            } else {
                ""@
            }
        },
        ARMSIMDType::SIMDArr(b, count, arr) => {
            let elem_size = spec_arm_base_type_size_bytes(b) * (count as nat);
            if elem_size == 8 {
                "vld1_"@ + spec_arm_load_abbrev(b) + "_x"@ + spec_dec_int(arr as int)
            } else if elem_size == 16 {
                "vld1q_"@ + spec_arm_load_abbrev(b) + "_x"@ + spec_dec_int(arr as int)
            } else {
                ""@
            }
        },
    }
}

pub fn arm_simd_type_to_ld_func(simd_type: ARMSIMDType) -> (r: String)
    requires
        (simd_type is SIMD || simd_type is SIMDArr),
        arm_type_emit_ok(simd_type),
    ensures
        r@ =~= spec_arm_ld_func(simd_type),
        r@.len() > 0,
{
    proof {
        reveal(arm_vec_loadable);
        reveal_strlit("vld1_");
        reveal_strlit("vld1q_");
    }
    match simd_type {
        ARMSIMDType::Primitive(_) => {
            proof {
                assert(false);
            }
            String::new()
        },
        ARMSIMDType::ConstantIntImmediate(_, _) => {
            proof {
                assert(false);
            }
            String::new()
        },
        ARMSIMDType::SIMD(b, count) => {
            let size = arm_simd_type_size_bytes(simd_type);
            if size == 8 {
                let mut s = "vld1_".to_owned();
                s.append(arm_base_type_to_load_abbrev(b));
                s
            } else {
                proof {
                    assert(size == 16);
                }
                let mut s = "vld1q_".to_owned();
                s.append(arm_base_type_to_load_abbrev(b));
                s
            }
        },
        ARMSIMDType::SIMDArr(b, count, arr) => {
            let base = arm_base_type_size_bytes(b);
            proof {
                assert(base * (count as usize) <= 256) by (nonlinear_arith)
                    requires
                        base <= 16,
                        0 <= count <= 16,
                ;
            }
            let elem_size = base * (count as usize);
            if elem_size == 8 {
                let mut s = "vld1_".to_owned();
                s.append(arm_base_type_to_load_abbrev(b));
                s.append("_x");
                let d = i32_to_dec(arr);
                s.append(d.as_str());
                s
            } else {
                proof {
                    assert(elem_size == 16);
                }
                let mut s = "vld1q_".to_owned();
                s.append(arm_base_type_to_load_abbrev(b));
                s.append("_x");
                let d = i32_to_dec(arr);
                s.append(d.as_str());
                s
            }
        },
    }
}

} // verus!

verus! {

/// An 8- or 16-byte vector shape: what one `vld1` load can fill.
#[verifier::opaque]
pub open spec fn arm_vec_loadable(b: ARMBaseType, count: i32) -> bool {
    ||| spec_arm_base_type_size_bytes(b) * (count as nat) == 8
    ||| spec_arm_base_type_size_bytes(b) * (count as nat) == 16
}

/// A type whose emitted declaration and load are meaningful: plausible lane
/// counts, no void-element vectors, and a shape one of the `vld1` loads can
/// fill (an 8- or 16-byte vector, per array element).
pub open spec fn arm_type_emit_ok(t: ARMSIMDType) -> bool {
    &&& arm_counts_ok(t)
    &&& match t {
        ARMSIMDType::SIMD(b, count) => b != ARMBaseType::Void && arm_vec_loadable(b, count),
        ARMSIMDType::SIMDArr(b, count, _) => b != ARMBaseType::Void && arm_vec_loadable(b, count),
        _ => true,
    }
}

} // verus!

verus! {

/// A value of an emit-ready type is at most a kibibyte.
pub proof fn lemma_arm_size_bound(t: ARMSIMDType)
    requires
        arm_counts_ok(t),
    ensures
        spec_arm_simd_type_size_bytes(t) <= 1024,
{
    match t {
        ARMSIMDType::SIMD(b, count) => {
            assert(spec_arm_base_type_size_bytes(b) * (count as nat) <= 256) by (nonlinear_arith)
                requires
                    spec_arm_base_type_size_bytes(b) <= 16,
                    0 <= count <= 16,
            ;
        },
        ARMSIMDType::SIMDArr(b, count, arr) => {
            assert(spec_arm_base_type_size_bytes(b) * (count as nat) * (arr as nat) <= 1024)
                by (nonlinear_arith)
                requires
                    spec_arm_base_type_size_bytes(b) <= 16,
                    0 <= count <= 16,
                    0 <= arr <= 4,
            ;
        },
        _ => {},
    }
}

} // verus!

verus! {

/// Executable check of `arm_type_emit_ok`.
pub fn arm_type_emit_ok_exec(t: ARMSIMDType) -> (r: bool)
    ensures
        r == arm_type_emit_ok(t),
{
    proof {
        reveal(arm_vec_loadable);
    }
    match t {
        ARMSIMDType::Primitive(_) => true,
        ARMSIMDType::ConstantIntImmediate(_, _) => true,
        ARMSIMDType::SIMD(b, count) => {
            if !(1 <= count && count <= 16 && b != ARMBaseType::Void) {
                return false;
            }
            let elem = arm_base_type_size_bytes(b) * (count as usize);
            proof {
                assert(elem <= 256) by (nonlinear_arith)
                    requires
                        elem == spec_arm_base_type_size_bytes(b) * (count as usize),
                        spec_arm_base_type_size_bytes(b) <= 16,
                        0 <= count <= 16,
                ;
            }
            elem == 8 || elem == 16
        },
        ARMSIMDType::SIMDArr(b, count, arr) => {
            if !(1 <= count && count <= 16 && 1 <= arr && arr <= 4 && b != ARMBaseType::Void) {
                return false;
            }
            let elem = arm_base_type_size_bytes(b) * (count as usize);
            proof {
                assert(elem <= 256) by (nonlinear_arith)
                    requires
                        elem == spec_arm_base_type_size_bytes(b) * (count as usize),
                        spec_arm_base_type_size_bytes(b) <= 16,
                        0 <= count <= 16,
                ;
            }
            elem == 8 || elem == 16
        },
    }
}

} // verus!
