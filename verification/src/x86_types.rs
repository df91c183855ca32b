//! The closed set of x86 SIMD types the fuzzer generates code over, and the
//! mapping from each type to its C++ spelling.
use vstd::prelude::*;

verus! {

/// Primitive C++ base types for the x86 surface.
#[derive(Debug, PartialEq, Eq, Hash, Clone, Copy, Structural)]
pub enum X86BaseType {
    Void,
    Int8,
    UInt8,
    Int16,
    UInt16,
    Int32,
    UInt32,
    Int64,
    UInt64,
    Float32,
    Float64,
}

/// Element-type tag carried by each x86 vector type.
#[derive(Debug, PartialEq, Eq, Hash, Clone, Copy, Structural)]
pub enum X86SIMDEType {
    Int8,
    UInt8,
    Int16,
    UInt16,
    Int32,
    UInt32,
    Int64,
    UInt64,
    Float32,
    Float64,
    M64,
    M128,
    M256,
    Mask,
}

/// A type in the x86 flavor: a scalar, a compile-time integer constant of a
/// given bit width, or a vector register type tagged with its element type.
#[derive(Debug, PartialEq, Eq, Hash, Clone, Copy, Structural)]
pub enum X86SIMDType {
    Primitive(X86BaseType),
    ConstantImmediate(X86BaseType, i32),
    M64(X86SIMDEType),
    M128(X86SIMDEType),
    M128d(X86SIMDEType),
    M128i(X86SIMDEType),
    M256(X86SIMDEType),
    M256d(X86SIMDEType),
    M256i(X86SIMDEType),
}

/// Whether an element-type tag denotes floating-point data.
pub open spec fn spec_is_simd_etype_floating_point(simd_etype: X86SIMDEType) -> bool {
    match simd_etype {
        X86SIMDEType::Float32 => true,
        X86SIMDEType::Float64 => true,
        X86SIMDEType::M64 => true,
        X86SIMDEType::M128 => true,
        X86SIMDEType::M256 => true,
        _ => false,
    }
}

pub fn is_simd_etype_floating_point(simd_etype: X86SIMDEType) -> (r: bool)
    ensures
        r == spec_is_simd_etype_floating_point(simd_etype),
{
    match simd_etype {
        X86SIMDEType::Float32 => true,
        X86SIMDEType::Float64 => true,
        X86SIMDEType::M64 => true,
        X86SIMDEType::M128 => true,
        X86SIMDEType::M256 => true,
        _ => false,
    }
}

/// Whether a type carries floating-point data anywhere in it.
pub open spec fn spec_is_simd_type_floating_point(simd_type: X86SIMDType) -> bool {
    match simd_type {
        X86SIMDType::Primitive(X86BaseType::Float32) => true,
        X86SIMDType::Primitive(X86BaseType::Float64) => true,
        X86SIMDType::Primitive(_) => false,
        X86SIMDType::ConstantImmediate(X86BaseType::Float32, _) => true,
        X86SIMDType::ConstantImmediate(X86BaseType::Float64, _) => true,
        X86SIMDType::ConstantImmediate(_, _) => false,
        X86SIMDType::M64(e_type) => spec_is_simd_etype_floating_point(e_type),
        X86SIMDType::M128(e_type) => spec_is_simd_etype_floating_point(e_type),
        X86SIMDType::M128d(_) => true,
        X86SIMDType::M128i(_) => false,
        X86SIMDType::M256(e_type) => spec_is_simd_etype_floating_point(e_type),
        X86SIMDType::M256d(_) => true,
        X86SIMDType::M256i(_) => false,
    }
}

pub fn is_simd_type_floating_point(simd_type: X86SIMDType) -> (r: bool)
    ensures
        r == spec_is_simd_type_floating_point(simd_type),
{
    match simd_type {
        X86SIMDType::Primitive(X86BaseType::Float32) => true,
        X86SIMDType::Primitive(X86BaseType::Float64) => true,
        X86SIMDType::Primitive(_) => false,
        X86SIMDType::ConstantImmediate(X86BaseType::Float32, _) => true,
        X86SIMDType::ConstantImmediate(X86BaseType::Float64, _) => true,
        X86SIMDType::ConstantImmediate(_, _) => false,
        X86SIMDType::M64(e_type) => is_simd_etype_floating_point(e_type),
        X86SIMDType::M128(e_type) => is_simd_etype_floating_point(e_type),
        X86SIMDType::M128d(_) => true,
        X86SIMDType::M128i(_) => false,
        X86SIMDType::M256(e_type) => is_simd_etype_floating_point(e_type),
        X86SIMDType::M256d(_) => true,
        X86SIMDType::M256i(_) => false,
    }
}

/// The C++ spelling of a primitive base type.
pub open spec fn spec_base_type_cpp_name(base_type: X86BaseType) -> Seq<char> {
    match base_type {
        X86BaseType::Void => "void"@,
        X86BaseType::Int8 => "char"@,
        X86BaseType::UInt8 => "unsigned char"@,
        X86BaseType::Int16 => "short"@,
        X86BaseType::UInt16 => "unsigned short"@,
        X86BaseType::Int32 => "int"@,
        X86BaseType::UInt32 => "unsigned int"@,
        X86BaseType::Int64 => "long long"@,
        X86BaseType::UInt64 => "unsigned long long"@,
        X86BaseType::Float32 => "float"@,
        X86BaseType::Float64 => "double"@,
    }
}

pub fn base_type_to_cpp_type_name(base_type: X86BaseType) -> (r: &'static str)
    ensures
        r@ == spec_base_type_cpp_name(base_type),
{
    match base_type {
        X86BaseType::Void => "void",
        X86BaseType::Int8 => "char",
        X86BaseType::UInt8 => "unsigned char",
        X86BaseType::Int16 => "short",
        X86BaseType::UInt16 => "unsigned short",
        X86BaseType::Int32 => "int",
        X86BaseType::UInt32 => "unsigned int",
        X86BaseType::Int64 => "long long",
        X86BaseType::UInt64 => "unsigned long long",
        X86BaseType::Float32 => "float",
        X86BaseType::Float64 => "double",
    }
}

/// The C++ spelling of any x86 type; a constant immediate is spelled as its
/// base type since its value is inlined at each use.
pub open spec fn spec_simd_type_cpp_name(simd_type: X86SIMDType) -> Seq<char> {
    match simd_type {
        X86SIMDType::Primitive(base_type) => spec_base_type_cpp_name(base_type),
        X86SIMDType::ConstantImmediate(base_type, _) => spec_base_type_cpp_name(base_type),
        X86SIMDType::M64(_) => "__m64"@,
        X86SIMDType::M128(_) => "__m128"@,
        X86SIMDType::M128d(_) => "__m128d"@,
        X86SIMDType::M128i(_) => "__m128i"@,
        X86SIMDType::M256(_) => "__m256"@,
        X86SIMDType::M256d(_) => "__m256d"@,
        X86SIMDType::M256i(_) => "__m256i"@,
    }
}

pub fn simd_type_to_cpp_type_name(simd_type: X86SIMDType) -> (r: &'static str)
    ensures
        r@ == spec_simd_type_cpp_name(simd_type),
{
    match simd_type {
        X86SIMDType::Primitive(base_type) => base_type_to_cpp_type_name(base_type),
        X86SIMDType::ConstantImmediate(base_type, _) => base_type_to_cpp_type_name(base_type),
        X86SIMDType::M64(_) => "__m64",
        X86SIMDType::M128(_) => "__m128",
        X86SIMDType::M128d(_) => "__m128d",
        X86SIMDType::M128i(_) => "__m128i",
        X86SIMDType::M256(_) => "__m256",
        X86SIMDType::M256d(_) => "__m256d",
        X86SIMDType::M256i(_) => "__m256i",
    }
}

/// An intrinsic from the catalog: its name and full signature.
#[derive(Debug)]
pub struct X86SIMDIntrinsic {
    pub intrinsic_name: String,
    pub return_type: X86SIMDType,
    pub param_types: Vec<X86SIMDType>,
}

/// Mathematical image of an intrinsic record.
pub struct X86SIMDIntrinsicV {
    pub name: Seq<char>,
    pub return_type: X86SIMDType,
    pub param_types: Seq<X86SIMDType>,
}

impl View for X86SIMDIntrinsic {
    type V = X86SIMDIntrinsicV;

    open spec fn view(&self) -> X86SIMDIntrinsicV {
        X86SIMDIntrinsicV {
            name: self.intrinsic_name@,
            return_type: self.return_type,
            param_types: self.param_types@,
        }
    }
}

impl Clone for X86SIMDIntrinsic {
    fn clone(&self) -> (r: Self)
        ensures
            r@ == self@,
    {
        X86SIMDIntrinsic {
            intrinsic_name: self.intrinsic_name.clone(),
            return_type: self.return_type,
            param_types: self.param_types.clone(),
        }
    }
}

/// Mask-tagged integer vectors are tracked in the reuse map as plain
/// unsigned 32-bit vectors; every other type stands for itself.
pub open spec fn spec_underlying_simd_type(node_type: X86SIMDType) -> X86SIMDType {
    if node_type == X86SIMDType::M128i(X86SIMDEType::Mask) {
        X86SIMDType::M256i(X86SIMDEType::UInt32)
    } else if node_type == X86SIMDType::M256i(X86SIMDEType::Mask) {
        X86SIMDType::M256i(X86SIMDEType::UInt32)
    } else {
        node_type
    }
}

pub fn get_underlying_simd_type(node_type: X86SIMDType) -> (r: X86SIMDType)
    ensures
        r == spec_underlying_simd_type(node_type),
{
    if node_type == X86SIMDType::M128i(X86SIMDEType::Mask) {
        X86SIMDType::M256i(X86SIMDEType::UInt32)
    } else if node_type == X86SIMDType::M256i(X86SIMDEType::Mask) {
        X86SIMDType::M256i(X86SIMDEType::UInt32)
    } else {
        node_type
    }
}

/// Collapsing the mask tag is idempotent: the reuse map's keys are fixed
/// points of the collapse.
pub proof fn lemma_underlying_idempotent(t: X86SIMDType)
    ensures
        spec_underlying_simd_type(spec_underlying_simd_type(t)) == spec_underlying_simd_type(t),
{
}

} // verus!
