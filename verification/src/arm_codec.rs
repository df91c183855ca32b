//! The on-disk codec for ARM reproducers: a return type packs into a small
//! integer code, and the code metadata serializes to one line of decimal
//! numbers.  Deserializing what was serialized gives back the original value.
use vstd::prelude::*;

use crate::arm_types::{ARMBaseType, ARMSIMDType};
use crate::fmt_num::{
    spec_dec_nat, spec_digits_val, spec_scan_digits, spec_take_num, is_digit_char, usize_to_dec,
    u32_to_dec, lemma_dec_nat_digits, lemma_dec_nat_val, lemma_scan_digits_exact,
    lemma_scan_digits_bounds, lemma_take_num_of_dec,
};

verus! {

/// The numeric family of a base type (bits 0..2 of a return-type code) and
/// the log2 of its bit width (bits 2..5).
pub open spec fn spec_core_type_and_ln2_bits(b: ARMBaseType) -> (u32, u32) {
    match b {
        ARMBaseType::Void => (0, 0),
        ARMBaseType::BFloat16 => (0, 0),
        ARMBaseType::Int8 => (0, 3),
        ARMBaseType::UInt8 => (1, 3),
        ARMBaseType::Int16 => (0, 4),
        ARMBaseType::UInt16 => (1, 4),
        ARMBaseType::Int32 => (0, 5),
        ARMBaseType::UInt32 => (1, 5),
        ARMBaseType::Int64 => (0, 6),
        ARMBaseType::UInt64 => (1, 6),
        ARMBaseType::Float16 => (2, 4),
        ARMBaseType::Float32 => (2, 5),
        ARMBaseType::Float64 => (2, 6),
        ARMBaseType::Poly8 => (3, 3),
        ARMBaseType::Poly16 => (3, 4),
        ARMBaseType::Poly32 => (3, 5),
        ARMBaseType::Poly64 => (3, 6),
        ARMBaseType::Poly128 => (3, 7),
    }
}

/// A base type the wire code can carry: everything but void and bfloat16.
pub open spec fn base_type_encodable(b: ARMBaseType) -> bool {
    b != ARMBaseType::Void && b != ARMBaseType::BFloat16
}

pub fn base_type_to_core_type_and_ln2_bits(base_type: ARMBaseType) -> (r: (u32, u32))
    requires
        base_type_encodable(base_type),
    ensures
        r == spec_core_type_and_ln2_bits(base_type),
{
    match base_type {
        ARMBaseType::Void => (0, 0),
        ARMBaseType::BFloat16 => (0, 0),
        ARMBaseType::Int8 => (0, 3),
        ARMBaseType::UInt8 => (1, 3),
        ARMBaseType::Int16 => (0, 4),
        ARMBaseType::UInt16 => (1, 4),
        ARMBaseType::Int32 => (0, 5),
        ARMBaseType::UInt32 => (1, 5),
        ARMBaseType::Int64 => (0, 6),
        ARMBaseType::UInt64 => (1, 6),
        ARMBaseType::Float16 => (2, 4),
        ARMBaseType::Float32 => (2, 5),
        ARMBaseType::Float64 => (2, 6),
        ARMBaseType::Poly8 => (3, 3),
        ARMBaseType::Poly16 => (3, 4),
        ARMBaseType::Poly32 => (3, 5),
        ARMBaseType::Poly64 => (3, 6),
        ARMBaseType::Poly128 => (3, 7),
    }
}

/// The base type a (family, log2-width) pair denotes.
pub open spec fn spec_base_type_of_codes(core_type: u32, ln2_bits: u32) -> Option<ARMBaseType> {
    match (core_type, ln2_bits) {
        (0u32, 3u32) => Some(ARMBaseType::Int8),
        (1u32, 3u32) => Some(ARMBaseType::UInt8),
        (0u32, 4u32) => Some(ARMBaseType::Int16),
        (1u32, 4u32) => Some(ARMBaseType::UInt16),
        (0u32, 5u32) => Some(ARMBaseType::Int32),
        (1u32, 5u32) => Some(ARMBaseType::UInt32),
        (0u32, 6u32) => Some(ARMBaseType::Int64),
        (1u32, 6u32) => Some(ARMBaseType::UInt64),
        (2u32, 4u32) => Some(ARMBaseType::Float16),
        (2u32, 5u32) => Some(ARMBaseType::Float32),
        (2u32, 6u32) => Some(ARMBaseType::Float64),
        (3u32, 3u32) => Some(ARMBaseType::Poly8),
        (3u32, 4u32) => Some(ARMBaseType::Poly16),
        (3u32, 5u32) => Some(ARMBaseType::Poly32),
        (3u32, 6u32) => Some(ARMBaseType::Poly64),
        (3u32, 7u32) => Some(ARMBaseType::Poly128),
        _ => None,
    }
}

pub fn core_type_and_ln2_bits_to_base_type(core_type: u32, ln2_bits: u32) -> (r: Option<
    ARMBaseType,
>)
    ensures
        r == spec_base_type_of_codes(core_type, ln2_bits),
{
    match (core_type, ln2_bits) {
        (0u32, 3u32) => Some(ARMBaseType::Int8),
        (1u32, 3u32) => Some(ARMBaseType::UInt8),
        (0u32, 4u32) => Some(ARMBaseType::Int16),
        (1u32, 4u32) => Some(ARMBaseType::UInt16),
        (0u32, 5u32) => Some(ARMBaseType::Int32),
        (1u32, 5u32) => Some(ARMBaseType::UInt32),
        (0u32, 6u32) => Some(ARMBaseType::Int64),
        (1u32, 6u32) => Some(ARMBaseType::UInt64),
        (2u32, 4u32) => Some(ARMBaseType::Float16),
        (2u32, 5u32) => Some(ARMBaseType::Float32),
        (2u32, 6u32) => Some(ARMBaseType::Float64),
        (3u32, 3u32) => Some(ARMBaseType::Poly8),
        (3u32, 4u32) => Some(ARMBaseType::Poly16),
        (3u32, 5u32) => Some(ARMBaseType::Poly32),
        (3u32, 6u32) => Some(ARMBaseType::Poly64),
        (3u32, 7u32) => Some(ARMBaseType::Poly128),
        _ => None,
    }
}

/// Decoding the codes of an encodable base type gives that type back.
pub proof fn lemma_base_type_codes_roundtrip(b: ARMBaseType)
    requires
        base_type_encodable(b),
    ensures
        ({
            let (ct, bits) = spec_core_type_and_ln2_bits(b);
            spec_base_type_of_codes(ct, bits) == Some(b)
        }),
{
}

/// Lane counts are sent as 1 + log2(lanes), with 0 reserved for scalars.
pub open spec fn spec_encode_simd_count(count: i32) -> u32 {
    if count == 1 {
        1
    } else if count == 2 {
        2
    } else if count == 4 {
        3
    } else if count == 8 {
        4
    } else {
        5
    }
}

pub open spec fn count_encodable(count: i32) -> bool {
    count == 1 || count == 2 || count == 4 || count == 8 || count == 16
}

pub fn encode_simd_count(count: i32) -> (r: u32)
    requires
        count_encodable(count),
    ensures
        r == spec_encode_simd_count(count),
{
    match count {
        1 => 1,
        2 => 2,
        4 => 3,
        8 => 4,
        _ => 5,
    }
}

pub open spec fn spec_decode_simd_count(encoded: u32) -> Option<i32> {
    if encoded == 0 {
        Some(0)
    } else if encoded == 1 {
        Some(1)
    } else if encoded == 2 {
        Some(2)
    } else if encoded == 3 {
        Some(4)
    } else if encoded == 4 {
        Some(8)
    } else if encoded == 5 {
        Some(16)
    } else {
        None
    }
}

pub fn decode_simd_count(encoded_count: u32) -> (r: Option<i32>)
    ensures
        r == spec_decode_simd_count(encoded_count),
{
    match encoded_count {
        0 => Some(0),
        1 => Some(1),
        2 => Some(2),
        3 => Some(4),
        4 => Some(8),
        5 => Some(16),
        _ => None,
    }
}

/// A return type the wire code can carry.
pub open spec fn return_type_encodable(t: ARMSIMDType) -> bool {
    match t {
        ARMSIMDType::Primitive(b) => base_type_encodable(b),
        ARMSIMDType::SIMD(b, count) => base_type_encodable(b) && count_encodable(count),
        ARMSIMDType::SIMDArr(b, count, arr) => base_type_encodable(b) && count_encodable(count)
            && 2 <= arr <= 4,
        ARMSIMDType::ConstantIntImmediate(_, _) => false,
    }
}

/// The wire code of a return type: bits 0..2 the family, bits 2..5 the
/// log2 bit width, bits 5..8 the encoded lane count (0 for scalars), bits
/// 8..10 the array length minus one.
pub open spec fn spec_encode_return_type(t: ARMSIMDType) -> u32 {
    match t {
        ARMSIMDType::Primitive(b) => {
            let (ct, bits) = spec_core_type_and_ln2_bits(b);
            ct | (bits << 2)
        },
        ARMSIMDType::SIMD(b, count) => {
            let (ct, bits) = spec_core_type_and_ln2_bits(b);
            ct | (bits << 2) | (spec_encode_simd_count(count) << 5)
        },
        ARMSIMDType::SIMDArr(b, count, arr) => {
            let (ct, bits) = spec_core_type_and_ln2_bits(b);
            ct | (bits << 2) | (spec_encode_simd_count(count) << 5) | ((((arr as int) - 1) as u32)
                << 8)
        },
        ARMSIMDType::ConstantIntImmediate(_, _) => 0,
    }
}

pub fn encode_return_type(return_type: ARMSIMDType) -> (r: u32)
    requires
        return_type_encodable(return_type),
    ensures
        r == spec_encode_return_type(return_type),
{
    match return_type {
        ARMSIMDType::Primitive(b) => {
            let (ct, bits) = base_type_to_core_type_and_ln2_bits(b);
            ct | (bits << 2u32)
        },
        ARMSIMDType::SIMD(b, count) => {
            let (ct, bits) = base_type_to_core_type_and_ln2_bits(b);
            ct | (bits << 2u32) | (encode_simd_count(count) << 5u32)
        },
        ARMSIMDType::SIMDArr(b, count, arr) => {
            let (ct, bits) = base_type_to_core_type_and_ln2_bits(b);
            let arr_code = (arr - 1) as u32;
            proof {
                assert(arr_code == ((arr as int) - 1) as u32);
            }
            ct | (bits << 2u32) | (encode_simd_count(count) << 5u32) | (arr_code << 8u32)
        },
        ARMSIMDType::ConstantIntImmediate(_, _) => 0,
    }
}

/// The return type a wire code denotes: a scalar when the lane field is zero,
/// a plain vector when the array field is zero, a vector array otherwise.
pub open spec fn spec_decode_return_type(code: u32) -> Option<ARMSIMDType> {
    let ct = code & 0b11;
    let bits = (code >> 2) & 0b111;
    let cnt_code = (code >> 5) & 0b111;
    let arr_code = (code >> 8) & 0b11;
    match spec_base_type_of_codes(ct, bits) {
        None => None,
        Some(b) => match spec_decode_simd_count(cnt_code) {
            None => None,
            Some(count) => {
                if count == 0 {
                    if arr_code == 0 {
                        Some(ARMSIMDType::Primitive(b))
                    } else {
                        None
                    }
                } else if arr_code == 0 {
                    Some(ARMSIMDType::SIMD(b, count))
                } else {
                    Some(ARMSIMDType::SIMDArr(b, count, (arr_code + 1) as i32))
                }
            },
        },
    }
}

pub fn decode_return_type(code: u32) -> (r: Option<ARMSIMDType>)
    ensures
        r == spec_decode_return_type(code),
{
    let ct = code & 0b11;
    let bits = (code >> 2u32) & 0b111;
    let cnt_code = (code >> 5u32) & 0b111;
    let arr_code = (code >> 8u32) & 0b11;
    match core_type_and_ln2_bits_to_base_type(ct, bits) {
        None => None,
        Some(b) => match decode_simd_count(cnt_code) {
            None => None,
            Some(count) => {
                if count == 0 {
                    if arr_code == 0 {
                        Some(ARMSIMDType::Primitive(b))
                    } else {
                        None
                    }
                } else if arr_code == 0 {
                    Some(ARMSIMDType::SIMD(b, count))
                } else {
                    proof {
                        assert(arr_code <= 3) by (bit_vector)
                            requires
                                arr_code == (code >> 8u32) & 0b11,
                        ;
                    }
                    Some(ARMSIMDType::SIMDArr(b, count, (arr_code + 1) as i32))
                }
            },
        },
    }
}

/// Packing four small fields and extracting them again is lossless.
proof fn lemma_pack_fields(a: u32, b: u32, c: u32, d: u32)
    requires
        a < 4,
        b < 8,
        c < 8,
        d < 4,
    ensures
        ({
            let v = a | (b << 2) | (c << 5) | (d << 8);
            &&& v & 0b11 == a
            &&& (v >> 2) & 0b111 == b
            &&& (v >> 5) & 0b111 == c
            &&& (v >> 8) & 0b11 == d
        }),
{
    let v = a | (b << 2) | (c << 5) | (d << 8);
    assert(v & 0b11 == a && (v >> 2) & 0b111 == b && (v >> 5) & 0b111 == c && (v >> 8) & 0b11 == d)
        by (bit_vector)
        requires
            a < 4,
            b < 8,
            c < 8,
            d < 4,
            v == a | (b << 2) | (c << 5) | (d << 8),
    ;
}

/// Decoding an encoded return type gives the type back.
pub proof fn lemma_return_type_roundtrip(t: ARMSIMDType)
    requires
        return_type_encodable(t),
    ensures
        spec_decode_return_type(spec_encode_return_type(t)) == Some(t),
{
    match t {
        ARMSIMDType::Primitive(b) => {
            let (ct, bits) = spec_core_type_and_ln2_bits(b);
            lemma_base_type_codes_roundtrip(b);
            lemma_pack_fields(ct, bits, 0, 0);
            assert(ct | (bits << 2) == ct | (bits << 2) | (0u32 << 5) | (0u32 << 8))
                by (bit_vector);
        },
        ARMSIMDType::SIMD(b, count) => {
            let (ct, bits) = spec_core_type_and_ln2_bits(b);
            lemma_base_type_codes_roundtrip(b);
            lemma_pack_fields(ct, bits, spec_encode_simd_count(count), 0);
            assert(ct | (bits << 2) | (spec_encode_simd_count(count) << 5) == ct | (bits << 2) | (
            spec_encode_simd_count(count) << 5) | (0u32 << 8)) by (bit_vector);
        },
        ARMSIMDType::SIMDArr(b, count, arr) => {
            let (ct, bits) = spec_core_type_and_ln2_bits(b);
            lemma_base_type_codes_roundtrip(b);
            lemma_pack_fields(ct, bits, spec_encode_simd_count(count), ((arr as int) - 1) as u32);
        },
        ARMSIMDType::ConstantIntImmediate(_, _) => {},
    }
}

} // verus!

verus! {

/// The code metadata written beside an ARM reproducer: how many int, float,
/// and double input slots the harness fills, and the function's return type.
#[derive(Debug, Clone, Copy, PartialEq, Eq, Structural)]
pub struct ARMCodegenFuzzerCodeMetadata {
    pub num_i_vals: usize,
    pub num_f_vals: usize,
    pub num_d_vals: usize,
    pub return_type: ARMSIMDType,
}

/// The serialized form: the three counts and the return-type code, separated
/// by single spaces.
pub open spec fn spec_serialize_meta(m: ARMCodegenFuzzerCodeMetadata) -> Seq<char> {
    spec_dec_nat(m.num_i_vals as nat) + " "@ + spec_dec_nat(m.num_f_vals as nat) + " "@
        + spec_dec_nat(m.num_d_vals as nat) + " "@ + spec_dec_nat(
        spec_encode_return_type(m.return_type) as nat,
    )
}

/// What a serialized metadata line parses back to: four numbers in range,
/// the last a valid return-type code, and nothing after them.
pub open spec fn spec_deserialize_meta(s: Seq<char>) -> Option<ARMCodegenFuzzerCodeMetadata> {
    match spec_take_num(s, 0) {
        None => None,
        Some((ni, p1)) => {
            if !(p1 < s.len() && s[p1] == ' ') {
                None
            } else {
                match spec_take_num(s, p1 + 1) {
                    None => None,
                    Some((nf, p2)) => {
                        if !(p2 < s.len() && s[p2] == ' ') {
                            None
                        } else {
                            match spec_take_num(s, p2 + 1) {
                                None => None,
                                Some((nd, p3)) => {
                                    if !(p3 < s.len() && s[p3] == ' ') {
                                        None
                                    } else {
                                        match spec_take_num(s, p3 + 1) {
                                            None => None,
                                            Some((code, p4)) => {
                                                if p4 != s.len() || ni > usize::MAX || nf
                                                    > usize::MAX || nd > usize::MAX || code
                                                    > u32::MAX {
                                                    None
                                                } else {
                                                    match spec_decode_return_type(code as u32) {
                                                        None => None,
                                                        Some(t) => Some(
                                                            ARMCodegenFuzzerCodeMetadata {
                                                                num_i_vals: ni as usize,
                                                                num_f_vals: nf as usize,
                                                                num_d_vals: nd as usize,
                                                                return_type: t,
                                                            },
                                                        ),
                                                    }
                                                }
                                            },
                                        }
                                    }
                                },
                            }
                        }
                    },
                }
            }
        },
    }
}

/// Serialize code metadata to its one-line text form.
pub fn save_meta_to_string(meta: &ARMCodegenFuzzerCodeMetadata) -> (r: String)
    requires
        return_type_encodable(meta.return_type),
    ensures
        r@ =~= spec_serialize_meta(*meta),
{
    let mut s = usize_to_dec(meta.num_i_vals);
    s.append(" ");
    let d1 = usize_to_dec(meta.num_f_vals);
    s.append(d1.as_str());
    s.append(" ");
    let d2 = usize_to_dec(meta.num_d_vals);
    s.append(d2.as_str());
    s.append(" ");
    let d3 = u32_to_dec(encode_return_type(meta.return_type));
    s.append(d3.as_str());
    s
}

/// Parse the one-line text form of code metadata.
pub fn read_meta_from_string(serial: &str) -> (r: Option<ARMCodegenFuzzerCodeMetadata>)
    ensures
        r == spec_deserialize_meta(serial@),
{
    let n = serial.unicode_len();
    let t0 = crate::fmt_num::take_num_u64(serial, 0);
    let (ni, p1) = match t0 {
        Some(v) => v,
        None => {
            return None;
        },
    };
    if !(p1 < n && serial.get_char(p1) == ' ') {
        return None;
    }
    let t1 = crate::fmt_num::take_num_u64(serial, p1 + 1);
    let (nf, p2) = match t1 {
        Some(v) => v,
        None => {
            return None;
        },
    };
    if !(p2 < n && serial.get_char(p2) == ' ') {
        return None;
    }
    let t2 = crate::fmt_num::take_num_u64(serial, p2 + 1);
    let (nd, p3) = match t2 {
        Some(v) => v,
        None => {
            return None;
        },
    };
    if !(p3 < n && serial.get_char(p3) == ' ') {
        return None;
    }
    let t3 = crate::fmt_num::take_num_u64(serial, p3 + 1);
    let (code, p4) = match t3 {
        Some(v) => v,
        None => {
            return None;
        },
    };
    if p4 != n {
        return None;
    }
    if ni > usize::MAX as u64 || nf > usize::MAX as u64 || nd > usize::MAX as u64 || code
        > u32::MAX as u64 {
        return None;
    }
    let t = match decode_return_type(code as u32) {
        Some(t) => t,
        None => {
            return None;
        },
    };
    Some(
        ARMCodegenFuzzerCodeMetadata {
            num_i_vals: ni as usize,
            num_f_vals: nf as usize,
            num_d_vals: nd as usize,
            return_type: t,
        },
    )
}

/// Reading back a serialized metadata line gives the metadata it came from,
/// structurally.
pub proof fn lemma_meta_roundtrip(m: ARMCodegenFuzzerCodeMetadata)
    requires
        return_type_encodable(m.return_type),
    ensures
        spec_deserialize_meta(spec_serialize_meta(m)) == Some(m),
{
    let s = spec_serialize_meta(m);
    let a = spec_dec_nat(m.num_i_vals as nat);
    let b = spec_dec_nat(m.num_f_vals as nat);
    let c = spec_dec_nat(m.num_d_vals as nat);
    let code = spec_encode_return_type(m.return_type);
    let d = spec_dec_nat(code as nat);
    assert(' ' as int == 32);
    assert(" "@ =~= seq![' ']) by {
        reveal_strlit(" ");
    }
    lemma_dec_nat_digits(m.num_i_vals as nat);
    lemma_dec_nat_digits(m.num_f_vals as nat);
    lemma_dec_nat_digits(m.num_d_vals as nat);
    lemma_dec_nat_digits(code as nat);
    let p1 = a.len() as int;
    let p2 = p1 + 1 + b.len();
    let p3 = p2 + 1 + c.len();
    let p4 = p3 + 1 + d.len();
    assert(s.len() == p4);
    assert(s.subrange(0, p1) =~= a);
    assert(s[p1] == ' ');
    assert(s.subrange(p1 + 1, p2) =~= b);
    assert(s[p2] == ' ');
    assert(s.subrange(p2 + 1, p3) =~= c);
    assert(s[p3] == ' ');
    assert(s.subrange(p3 + 1, p4) =~= d);
    lemma_take_num_of_dec(m.num_i_vals as nat, s, 0);
    lemma_take_num_of_dec(m.num_f_vals as nat, s, p1 + 1);
    lemma_take_num_of_dec(m.num_d_vals as nat, s, p2 + 1);
    lemma_take_num_of_dec(code as nat, s, p3 + 1);
    lemma_return_type_roundtrip(m.return_type);
}

} // verus!
