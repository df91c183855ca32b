//! The ARM intrinsic-catalog parser: walk the JSON specification, keep the
//! NEON intrinsics whose types we can produce and load, and drop the ones a
//! mitigation or the built-in block list names.
use vstd::prelude::*;

use crate::arm_types::{
    ARMBaseType, ARMSIMDType, ARMSIMDIntrinsic, ARMSIMDIntrinsicV, str_eq, parse_arm_simd_type,
    spec_parse_arm_simd_type, is_arm_simd_type_floating_point,
    spec_is_arm_simd_type_floating_point, is_arm_simd_type_base_type,
    spec_is_arm_simd_type_base_type, arm_type_emit_ok, arm_type_emit_ok_exec,
};
use crate::gen_arm::{ARMTypeIntrinsics, ARMIntrinsicsByType, catalog_wf};

verus! {


pub open spec fn spec_disallowed_chunk0() -> Seq<Seq<char>> {
    seq![
        "__crc32b"@,
        "__crc32h"@,
        "__crc32w"@,
        "__crc32d"@,
        "__crc32cb"@,
        "__crc32ch"@,
        "__crc32cw"@,
        "__crc32cd"@,
        "vaesdq_u8"@,
        "vaesmcq_u8"@,
        "vaeseq_u8"@,
        "vaesimcq_u8"@,
        "vdot_s32"@,
        "vdot_u32"@,
        "vdotq_s32"@,
        "vdotq_u32"@,
        "vdot_lane_s32"@,
        "vdot_lane_u32"@,
        "vsudot_lane_s32"@,
        "vsudot_lane_u32"@,
        "vusdot_s32"@,
        "vusdot_u32"@,
        "vusdot_lane_s32"@,
        "vusdot_lane_u32"@,
        "vdotq_lane_s32"@,
        "vdotq_lane_u32"@,
        "vsudotq_lane_s32"@,
        "vsudotq_lane_u32"@,
    ]
}

#[verifier::rlimit(100)]
fn push_disallowed_chunk0(r: &mut Vec<String>)
    ensures
        final(r)@.len() == old(r)@.len() + 28,
        forall|i: int| 0 <= i < old(r)@.len() ==> final(r)@[i] == old(r)@[i],
        forall|j: int|
            old(r)@.len() <= j < final(r)@.len() ==> (#[trigger] final(r)@[j])@
                == spec_disallowed_chunk0()[j - old(r)@.len()],
{
    r.push("__crc32b".to_owned());
    r.push("__crc32h".to_owned());
    r.push("__crc32w".to_owned());
    r.push("__crc32d".to_owned());
    r.push("__crc32cb".to_owned());
    r.push("__crc32ch".to_owned());
    r.push("__crc32cw".to_owned());
    r.push("__crc32cd".to_owned());
    r.push("vaesdq_u8".to_owned());
    r.push("vaesmcq_u8".to_owned());
    r.push("vaeseq_u8".to_owned());
    r.push("vaesimcq_u8".to_owned());
    r.push("vdot_s32".to_owned());
    r.push("vdot_u32".to_owned());
    r.push("vdotq_s32".to_owned());
    r.push("vdotq_u32".to_owned());
    r.push("vdot_lane_s32".to_owned());
    r.push("vdot_lane_u32".to_owned());
    r.push("vsudot_lane_s32".to_owned());
    r.push("vsudot_lane_u32".to_owned());
    r.push("vusdot_s32".to_owned());
    r.push("vusdot_u32".to_owned());
    r.push("vusdot_lane_s32".to_owned());
    r.push("vusdot_lane_u32".to_owned());
    r.push("vdotq_lane_s32".to_owned());
    r.push("vdotq_lane_u32".to_owned());
    r.push("vsudotq_lane_s32".to_owned());
    r.push("vsudotq_lane_u32".to_owned());
}

pub open spec fn spec_disallowed_chunk1() -> Seq<Seq<char>> {
    seq![
        "vusdotq_lane_s32"@,
        "vusdotq_lane_u32"@,
        "vdotq_laneq_u32"@,
        "vdotq_laneq_s32"@,
        "vdot_laneq_s32"@,
        "vdot_laneq_u32"@,
        "vsha1cq_u32"@,
        "vsha1pq_u32"@,
        "vsha1mq_u32"@,
        "vsha1h_u32"@,
        "vsha1su0q_u32"@,
        "vsha1su1q_u32"@,
        "vsha256hq_u32"@,
        "vsha256h2q_u32"@,
        "vsha256su0q_u32"@,
        "vsha256su1q_u32"@,
        "vmmlaq_s32"@,
        "vmmlaq_u32"@,
        "vusmmlaq_s32"@,
        "vusmmlaq_u32"@,
        "vrnd64z_f32"@,
        "vrnd64zq_f32"@,
        "vrnd64z_f64"@,
        "vrnd64zq_f64"@,
        "vrnd64x_f32"@,
        "vrnd64xq_f32"@,
        "vrnd64x_f64"@,
        "vrnd64xq_f64"@,
    ]
}

#[verifier::rlimit(100)]
fn push_disallowed_chunk1(r: &mut Vec<String>)
    ensures
        final(r)@.len() == old(r)@.len() + 28,
        forall|i: int| 0 <= i < old(r)@.len() ==> final(r)@[i] == old(r)@[i],
        forall|j: int|
            old(r)@.len() <= j < final(r)@.len() ==> (#[trigger] final(r)@[j])@
                == spec_disallowed_chunk1()[j - old(r)@.len()],
{
    r.push("vusdotq_lane_s32".to_owned());
    r.push("vusdotq_lane_u32".to_owned());
    r.push("vdotq_laneq_u32".to_owned());
    r.push("vdotq_laneq_s32".to_owned());
    r.push("vdot_laneq_s32".to_owned());
    r.push("vdot_laneq_u32".to_owned());
    r.push("vsha1cq_u32".to_owned());
    r.push("vsha1pq_u32".to_owned());
    r.push("vsha1mq_u32".to_owned());
    r.push("vsha1h_u32".to_owned());
    r.push("vsha1su0q_u32".to_owned());
    r.push("vsha1su1q_u32".to_owned());
    r.push("vsha256hq_u32".to_owned());
    r.push("vsha256h2q_u32".to_owned());
    r.push("vsha256su0q_u32".to_owned());
    r.push("vsha256su1q_u32".to_owned());
    r.push("vmmlaq_s32".to_owned());
    r.push("vmmlaq_u32".to_owned());
    r.push("vusmmlaq_s32".to_owned());
    r.push("vusmmlaq_u32".to_owned());
    r.push("vrnd64z_f32".to_owned());
    r.push("vrnd64zq_f32".to_owned());
    r.push("vrnd64z_f64".to_owned());
    r.push("vrnd64zq_f64".to_owned());
    r.push("vrnd64x_f32".to_owned());
    r.push("vrnd64xq_f32".to_owned());
    r.push("vrnd64x_f64".to_owned());
    r.push("vrnd64xq_f64".to_owned());
}

pub open spec fn spec_disallowed_chunk2() -> Seq<Seq<char>> {
    seq![
        "vrnd32z_f32"@,
        "vrnd32zq_f32"@,
        "vrnd32z_f64"@,
        "vrnd32zq_f64"@,
        "vrnd32x_f32"@,
        "vrnd32xq_f32"@,
        "vrnd32x_f64"@,
        "vrnd32xq_f64"@,
        "vrndah_f16"@,
        "vcvth_s16_f16"@,
        "vcvtah_f32_bf16"@,
        "vcvtnh_s32_f16"@,
        "vclth_f16"@,
        "vrndmh_f16"@,
        "vcvth_s64_f16"@,
        "vrndph_f16"@,
        "vcvth_n_f16_s64"@,
        "vcvtph_s16_f16"@,
        "vrecpeh_f16"@,
        "vrecpsh_f16"@,
        "vmulxh_f16"@,
        "vcvth_n_s16_f16"@,
        "vmaxh_f16"@,
        "vrecpxh_f16"@,
        "vsubh_f16"@,
        "vcvth_n_f16_s16"@,
        "vcvtnh_s64_f16"@,
        "vcvtmh_u64_f16"@,
    ]
}

#[verifier::rlimit(100)]
fn push_disallowed_chunk2(r: &mut Vec<String>)
    ensures
        final(r)@.len() == old(r)@.len() + 28,
        forall|i: int| 0 <= i < old(r)@.len() ==> final(r)@[i] == old(r)@[i],
        forall|j: int|
            old(r)@.len() <= j < final(r)@.len() ==> (#[trigger] final(r)@[j])@
                == spec_disallowed_chunk2()[j - old(r)@.len()],
{
    r.push("vrnd32z_f32".to_owned());
    r.push("vrnd32zq_f32".to_owned());
    r.push("vrnd32z_f64".to_owned());
    r.push("vrnd32zq_f64".to_owned());
    r.push("vrnd32x_f32".to_owned());
    r.push("vrnd32xq_f32".to_owned());
    r.push("vrnd32x_f64".to_owned());
    r.push("vrnd32xq_f64".to_owned());
    r.push("vrndah_f16".to_owned());
    r.push("vcvth_s16_f16".to_owned());
    r.push("vcvtah_f32_bf16".to_owned());
    r.push("vcvtnh_s32_f16".to_owned());
    r.push("vclth_f16".to_owned());
    r.push("vrndmh_f16".to_owned());
    r.push("vcvth_s64_f16".to_owned());
    r.push("vrndph_f16".to_owned());
    r.push("vcvth_n_f16_s64".to_owned());
    r.push("vcvtph_s16_f16".to_owned());
    r.push("vrecpeh_f16".to_owned());
    r.push("vrecpsh_f16".to_owned());
    r.push("vmulxh_f16".to_owned());
    r.push("vcvth_n_s16_f16".to_owned());
    r.push("vmaxh_f16".to_owned());
    r.push("vrecpxh_f16".to_owned());
    r.push("vsubh_f16".to_owned());
    r.push("vcvth_n_f16_s16".to_owned());
    r.push("vcvtnh_s64_f16".to_owned());
    r.push("vcvtmh_u64_f16".to_owned());
}

pub open spec fn spec_disallowed_chunk3() -> Seq<Seq<char>> {
    seq![
        "vcageh_f16"@,
        "vrndxh_f16"@,
        "vcvth_f16_u16"@,
        "vcvth_f16_s64"@,
        "vmaxnmh_f16"@,
        "vcvth_f16_u64"@,
        "vfmsh_f16"@,
        "vceqh_f16"@,
        "vcvth_n_f16_u16"@,
        "vcvtnh_s16_f16"@,
        "vcvth_n_f16_s32"@,
        "vnegh_f16"@,
        "vminh_f16"@,
        "vcvtnh_u16_f16"@,
        "vrsqrtsh_f16"@,
        "vabsh_f16"@,
        "vcvth_f16_u32"@,
        "vaddh_f16"@,
        "vmulh_f16"@,
        "vcvtph_s32_f16"@,
        "vcvth_n_f16_u32"@,
        "vfmah_f16"@,
        "vrndh_f16"@,
        "vminnmh_f16"@,
        "vclezh_f16"@,
        "vabdh_f16"@,
        "vrsqrteh_f16"@,
        "vcvtph_s64_f16"@,
    ]
}

#[verifier::rlimit(100)]
fn push_disallowed_chunk3(r: &mut Vec<String>)
    ensures
        final(r)@.len() == old(r)@.len() + 28,
        forall|i: int| 0 <= i < old(r)@.len() ==> final(r)@[i] == old(r)@[i],
        forall|j: int|
            old(r)@.len() <= j < final(r)@.len() ==> (#[trigger] final(r)@[j])@
                == spec_disallowed_chunk3()[j - old(r)@.len()],
{
    r.push("vcageh_f16".to_owned());
    r.push("vrndxh_f16".to_owned());
    r.push("vcvth_f16_u16".to_owned());
    r.push("vcvth_f16_s64".to_owned());
    r.push("vmaxnmh_f16".to_owned());
    r.push("vcvth_f16_u64".to_owned());
    r.push("vfmsh_f16".to_owned());
    r.push("vceqh_f16".to_owned());
    r.push("vcvth_n_f16_u16".to_owned());
    r.push("vcvtnh_s16_f16".to_owned());
    r.push("vcvth_n_f16_s32".to_owned());
    r.push("vnegh_f16".to_owned());
    r.push("vminh_f16".to_owned());
    r.push("vcvtnh_u16_f16".to_owned());
    r.push("vrsqrtsh_f16".to_owned());
    r.push("vabsh_f16".to_owned());
    r.push("vcvth_f16_u32".to_owned());
    r.push("vaddh_f16".to_owned());
    r.push("vmulh_f16".to_owned());
    r.push("vcvtph_s32_f16".to_owned());
    r.push("vcvth_n_f16_u32".to_owned());
    r.push("vfmah_f16".to_owned());
    r.push("vrndh_f16".to_owned());
    r.push("vminnmh_f16".to_owned());
    r.push("vclezh_f16".to_owned());
    r.push("vabdh_f16".to_owned());
    r.push("vrsqrteh_f16".to_owned());
    r.push("vcvtph_s64_f16".to_owned());
}

pub open spec fn spec_disallowed_chunk4() -> Seq<Seq<char>> {
    seq![
        "vrndnh_f16"@,
        "vcagth_f16"@,
        "vcvth_n_f16_u64"@,
        "vcvtmh_s64_f16"@,
        "vcvtnh_u64_f16"@,
        "vcleh_f16"@,
        "vcgth_f16"@,
        "vcvtah_s16_f16"@,
        "vcvtmh_s16_f16"@,
        "vcvtah_s32_f16"@,
        "vcvth_f16_s32"@,
        "vcvth_n_s32_f16"@,
        "vrndih_f16"@,
        "vcvtph_u64_f16"@,
        "vcvtmh_s32_f16"@,
        "vcgtzh_f16"@,
        "vsqrth_f16"@,
        "vceqzh_f16"@,
        "vcvtah_u32_f16"@,
        "vcvth_f16_s16"@,
        "vcvth_s32_f16"@,
        "vdivh_f16"@,
        "vcvtah_s64_f16"@,
        "vcvth_n_u16_f16"@,
        "vcltzh_f16"@,
        "vcvth_u64_f16"@,
        "vcaleh_f16"@,
        "vcgeh_f16"@,
    ]
}

#[verifier::rlimit(100)]
fn push_disallowed_chunk4(r: &mut Vec<String>)
    ensures
        final(r)@.len() == old(r)@.len() + 28,
        forall|i: int| 0 <= i < old(r)@.len() ==> final(r)@[i] == old(r)@[i],
        forall|j: int|
            old(r)@.len() <= j < final(r)@.len() ==> (#[trigger] final(r)@[j])@
                == spec_disallowed_chunk4()[j - old(r)@.len()],
{
    r.push("vrndnh_f16".to_owned());
    r.push("vcagth_f16".to_owned());
    r.push("vcvth_n_f16_u64".to_owned());
    r.push("vcvtmh_s64_f16".to_owned());
    r.push("vcvtnh_u64_f16".to_owned());
    r.push("vcleh_f16".to_owned());
    r.push("vcgth_f16".to_owned());
    r.push("vcvtah_s16_f16".to_owned());
    r.push("vcvtmh_s16_f16".to_owned());
    r.push("vcvtah_s32_f16".to_owned());
    r.push("vcvth_f16_s32".to_owned());
    r.push("vcvth_n_s32_f16".to_owned());
    r.push("vrndih_f16".to_owned());
    r.push("vcvtph_u64_f16".to_owned());
    r.push("vcvtmh_s32_f16".to_owned());
    r.push("vcgtzh_f16".to_owned());
    r.push("vsqrth_f16".to_owned());
    r.push("vceqzh_f16".to_owned());
    r.push("vcvtah_u32_f16".to_owned());
    r.push("vcvth_f16_s16".to_owned());
    r.push("vcvth_s32_f16".to_owned());
    r.push("vdivh_f16".to_owned());
    r.push("vcvtah_s64_f16".to_owned());
    r.push("vcvth_n_u16_f16".to_owned());
    r.push("vcltzh_f16".to_owned());
    r.push("vcvth_u64_f16".to_owned());
    r.push("vcaleh_f16".to_owned());
    r.push("vcgeh_f16".to_owned());
}

pub open spec fn spec_disallowed_chunk5() -> Seq<Seq<char>> {
    seq![
        "vcvtmh_u16_f16"@,
        "vcvth_n_u64_f16"@,
        "vcvth_n_s64_f16"@,
        "vcvtnh_u32_f16"@,
        "vcvth_u16_f16"@,
        "vcvtmh_u32_f16"@,
        "vcvtah_u16_f16"@,
        "vcalth_f16"@,
        "vcvtph_u16_f16"@,
        "vcvth_n_u32_f16"@,
        "vcvth_u32_f16"@,
        "vcvtah_u64_f16"@,
        "vcgezh_f16"@,
        "vcvtph_u32_f16"@,
    ]
}

#[verifier::rlimit(100)]
fn push_disallowed_chunk5(r: &mut Vec<String>)
    ensures
        final(r)@.len() == old(r)@.len() + 14,
        forall|i: int| 0 <= i < old(r)@.len() ==> final(r)@[i] == old(r)@[i],
        forall|j: int|
            old(r)@.len() <= j < final(r)@.len() ==> (#[trigger] final(r)@[j])@
                == spec_disallowed_chunk5()[j - old(r)@.len()],
{
    r.push("vcvtmh_u16_f16".to_owned());
    r.push("vcvth_n_u64_f16".to_owned());
    r.push("vcvth_n_s64_f16".to_owned());
    r.push("vcvtnh_u32_f16".to_owned());
    r.push("vcvth_u16_f16".to_owned());
    r.push("vcvtmh_u32_f16".to_owned());
    r.push("vcvtah_u16_f16".to_owned());
    r.push("vcalth_f16".to_owned());
    r.push("vcvtph_u16_f16".to_owned());
    r.push("vcvth_n_u32_f16".to_owned());
    r.push("vcvth_u32_f16".to_owned());
    r.push("vcvtah_u64_f16".to_owned());
    r.push("vcgezh_f16".to_owned());
    r.push("vcvtph_u32_f16".to_owned());
}

/// The intrinsics never drawn, as one list.
pub open spec fn spec_disallowed_arm_intrinsics() -> Seq<Seq<char>> {
    spec_disallowed_chunk0() + spec_disallowed_chunk1() + spec_disallowed_chunk2() + spec_disallowed_chunk3() + spec_disallowed_chunk4() + spec_disallowed_chunk5()
}

pub fn get_disallowed_intrinsics() -> (r: Vec<String>)
    ensures
        r@.len() == spec_disallowed_arm_intrinsics().len(),
        forall|i: int|
            0 <= i < r@.len() ==> (#[trigger] r@[i])@ == spec_disallowed_arm_intrinsics()[i],
{
    let mut r: Vec<String> = Vec::new();
    push_disallowed_chunk0(&mut r);
    let ghost g0 = r@;
    push_disallowed_chunk1(&mut r);
    let ghost g1 = r@;
    push_disallowed_chunk2(&mut r);
    let ghost g2 = r@;
    push_disallowed_chunk3(&mut r);
    let ghost g3 = r@;
    push_disallowed_chunk4(&mut r);
    let ghost g4 = r@;
    push_disallowed_chunk5(&mut r);
    proof {
        let s = spec_disallowed_arm_intrinsics();
        assert forall|i: int| 0 <= i < r@.len() implies (#[trigger] r@[i])@ == s[i] by {
            if i < 140 {
                assert(r@[i] == g4[i]);
            }
            if i < 112 {
                assert(g4[i] == g3[i]);
            }
            if i < 84 {
                assert(g3[i] == g2[i]);
            }
            if i < 56 {
                assert(g2[i] == g1[i]);
            }
            if i < 28 {
                assert(g1[i] == g0[i]);
                assert(g0[i]@ == spec_disallowed_chunk0()[i]);
            } else if i < 56 {
                assert(g1[i]@ == spec_disallowed_chunk1()[i - 28]);
            } else if i < 84 {
                assert(g2[i]@ == spec_disallowed_chunk2()[i - 56]);
            } else if i < 112 {
                assert(g3[i]@ == spec_disallowed_chunk3()[i - 84]);
            } else if i < 140 {
                assert(g4[i]@ == spec_disallowed_chunk4()[i - 112]);
            } else {
                assert(r@[i]@ == spec_disallowed_chunk5()[i - 140]);
            }
        }
    }
    r
}

/// Whether a name is on a list.
pub fn name_on_list(list: &Vec<String>, name: &str) -> (r: bool)
    ensures
        r == (exists|i: int| 0 <= i < list@.len() && (#[trigger] list@[i])@ == name@),
{
    let mut i: usize = 0;
    while i < list.len()
        invariant
            i <= list@.len(),
            forall|j: int| 0 <= j < i ==> (#[trigger] list@[j])@ != name@,
        decreases list@.len() - i,
    {
        if str_eq(list[i].as_str(), name) {
            return true;
        }
        i = i + 1;
    }
    false
}


/// Every intrinsic the parser hands out has a producible signature: an
/// emit-ready return type and parameters that are emit-ready or well-formed
/// constant ranges, at most thirty-two of them.
pub open spec fn arm_intrinsic_sig_ok(v: crate::arm_types::ARMSIMDIntrinsicV) -> bool {
    &&& arm_type_emit_ok(v.return_type)
    &&& !(v.return_type is ConstantIntImmediate)
    &&& v.param_types.len() <= 32
    &&& forall|p: int|
        0 <= p < v.param_types.len() ==> match #[trigger] v.param_types[p] {
            ARMSIMDType::ConstantIntImmediate(mn, mx) => mn <= mx,
            _ => arm_type_emit_ok(v.param_types[p]),
        }
}

} // verus!

verus! {

/// Whether a string holds a character.
pub(crate) fn contains_char(s: &str, c: char) -> (r: bool)
    ensures
        r == (exists|i: int| 0 <= i < s@.len() && s@[i] == c),
{
    let n = s.unicode_len();
    let mut i: usize = 0;
    while i < n
        invariant
            n == s@.len(),
            i <= n,
            forall|j: int| 0 <= j < i ==> s@[j] != c,
        decreases n - i,
    {
        if s.get_char(i) == c {
            return true;
        }
        i = i + 1;
    }
    false
}

/// The text before the first space.
/// The index of the first space at or after `i`, or the length.
pub open spec fn spec_first_space(s: Seq<char>, i: int) -> int
    decreases s.len() - i,
{
    if i < 0 || i >= s.len() {
        s.len() as int
    } else if s[i] == ' ' {
        i
    } else {
        spec_first_space(s, i + 1)
    }
}

/// The characters before the first space.
pub open spec fn spec_first_word(s: Seq<char>) -> Seq<char> {
    s.subrange(0, spec_first_space(s, 0))
}

fn first_word(s: &str) -> (r: String)
    ensures
        r@ == spec_first_word(s@),
{
    let n = s.unicode_len();
    let mut i: usize = 0;
    while i < n
        invariant
            n == s@.len(),
            i <= n,
            spec_first_space(s@, 0) == spec_first_space(s@, i as int),
        decreases n - i,
    {
        if s.get_char(i) == ' ' {
            return s.substring_char(0, i).to_owned();
        }
        i = i + 1;
    }
    proof {
        assert(s@.subrange(0, s@.len() as int) =~= s@);
    }
    s.to_owned()
}

/// What one document entry contributes: `None` when a filter skips it or a
/// field is missing, malformed, or names a type outside what the generator
/// can produce and the loader can feed.
pub open spec fn spec_arm_rec_result(rec: ArmJsonRecV, mits: Seq<String>) -> Option<
    ARMSIMDIntrinsicV,
> {
    if rec.simd_isa != Some("Neon"@) {
        None
    } else {
        let a64_only = forall|i: int|
            0 <= i < rec.archs.len() ==> ((#[trigger] rec.archs[i]) matches Some(s) ==> s
                == "A64"@);
        if a64_only && spec_name_on(mits, "AVOID_A64_ONLY"@) {
            None
        } else {
            match rec.name {
                None => None,
                Some(nm) => if spec_on_disallowed(nm) {
                    None
                } else {
                    match rec.ret_value {
                        None => None,
                        Some(rv) => match spec_parse_arm_simd_type(rv) {
                            None => None,
                            Some(rt) => if rt is ConstantIntImmediate || !arm_type_emit_ok(rt) {
                                None
                            } else {
                                match rec.args {
                                    None => None,
                                    Some(args) => if args.len() > 32 {
                                        None
                                    } else {
                                        match spec_arm_args_types(
                                            args,
                                            rec.preps,
                                            args.len() as int,
                                        ) {
                                            None => None,
                                            Some(ts) => if spec_mitigation_rejects(mits, rt, ts) {
                                                None
                                            } else {
                                                Some(
                                                    ARMSIMDIntrinsicV {
                                                        name: nm,
                                                        return_type: rt,
                                                        param_types: ts,
                                                    },
                                                )
                                            },
                                        }
                                    },
                                }
                            },
                        },
                    }
                },
            }
        }
    }
}

/// Apply one document entry's filters and type parses.
fn arm_rec_step(
    rec: &ArmJsonRec,
    mitigations: &Vec<String>,
    disallowed: &Vec<String>,
) -> (r: Option<ARMSIMDIntrinsic>)
    requires
        disallowed@.len() == spec_disallowed_arm_intrinsics().len(),
        forall|i: int|
            0 <= i < disallowed@.len() ==> (#[trigger] disallowed@[i])@
                == spec_disallowed_arm_intrinsics()[i],
    ensures
        match r {
            Some(x) => spec_arm_rec_result(rec@, mitigations@) == Some(x@) && arm_intrinsic_sig_ok(
                x@,
            ),
            None => spec_arm_rec_result(rec@, mitigations@) is None,
        },
{
    let isa = match &rec.simd_isa {
        Some(s) => s,
        None => {
            return None;
        },
    };
    if !str_eq(isa.as_str(), "Neon") {
        return None;
    }
    proof {
        assert(rec@.simd_isa == Some("Neon"@));
    }
    let mut a64_only = true;
    let mut a: usize = 0;
    while a < rec.archs.len()
        invariant
            a <= rec.archs@.len(),
            rec@.archs.len() == rec.archs@.len(),
            a64_only == (forall|k: int|
                0 <= k < a ==> ((#[trigger] rec@.archs[k]) matches Some(s) ==> s == "A64"@)),
        decreases rec.archs@.len() - a,
    {
        match &rec.archs[a] {
            Some(s) => {
                proof {
                    assert(rec@.archs[a as int] == Some(s@));
                }
                if !str_eq(s.as_str(), "A64") {
                    a64_only = false;
                }
            },
            None => {
                proof {
                    assert(rec@.archs[a as int] is None);
                }
            },
        }
        a = a + 1;
    }
    if a64_only && name_on_list(mitigations, "AVOID_A64_ONLY") {
        return None;
    }
    let name = match &rec.name {
        Some(s) => s,
        None => {
            return None;
        },
    };
    let on_block_list = name_on_list(disallowed, name.as_str());
    proof {
        assert(spec_on_disallowed(name@) == (exists|i: int|
            0 <= i < disallowed@.len() && (#[trigger] disallowed@[i])@ == name@)) by {
            if exists|i: int| 0 <= i < disallowed@.len() && (#[trigger] disallowed@[i])@ == name@ {
                let i = choose|i: int|
                    0 <= i < disallowed@.len() && (#[trigger] disallowed@[i])@ == name@;
                assert(spec_disallowed_arm_intrinsics()[i] == name@);
            }
            if spec_on_disallowed(name@) {
                let i = choose|i: int|
                    0 <= i < spec_disallowed_arm_intrinsics().len()
                        && spec_disallowed_arm_intrinsics()[i] == name@;
                assert((disallowed@[i])@ == name@);
            }
        };
    }
    if on_block_list {
        return None;
    }
    let ret_name = match &rec.ret_value {
        Some(s) => s,
        None => {
            return None;
        },
    };
    let ret_type = match parse_arm_simd_type(ret_name.as_str()) {
        Some(t) => t,
        None => {
            return None;
        },
    };
    let is_const_ret = match ret_type {
        ARMSIMDType::ConstantIntImmediate(_, _) => true,
        _ => false,
    };
    if is_const_ret || !arm_type_emit_ok_exec(ret_type) {
        return None;
    }
    let args = match &rec.args {
        Some(a) => a,
        None => {
            return None;
        },
    };
    if args.len() > 32 {
        return None;
    }
    let ghost argsv = opt_strs_v(args@);
    proof {
        assert(rec@.args == Some(argsv));
        assert(rec@.preps == preps_v(rec.preps));
    }
    let mut out: Vec<ARMSIMDType> = Vec::new();
    let mut fail = false;
    let mut k: usize = 0;
    while k < args.len()
        invariant
            argsv == opt_strs_v(args@),
            args@.len() == argsv.len(),
            rec@.preps == preps_v(rec.preps),
            k <= argsv.len(),
            !fail ==> out@.len() == k as int,
            !fail ==> spec_arm_args_types(argsv, rec@.preps, k as int) == Some(out@),
            fail ==> spec_arm_args_types(argsv, rec@.preps, argsv.len() as int) is None,
            forall|p: int|
                0 <= p < out@.len() ==> match #[trigger] out@[p] {
                    ARMSIMDType::ConstantIntImmediate(mn, mx) => mn <= mx,
                    _ => arm_type_emit_ok(out@[p]),
                },
        decreases argsv.len() - k,
    {
        if !fail {
            match &args[k] {
                Some(astr) => {
                    proof {
                        assert(argsv[k as int] == Some(astr@));
                    }
                    match arm_arg_type(astr.as_str(), &rec.preps) {
                        Some(t) => {
                            out.push(t);
                            proof {
                                assert(spec_arm_args_types(argsv, rec@.preps, k + 1) == Some(
                                    out@,
                                ));
                            }
                        },
                        None => {
                            proof {
                                assert(spec_arm_args_types(argsv, rec@.preps, k + 1) is None);
                                lemma_arm_args_none(
                                    argsv,
                                    rec@.preps,
                                    k + 1,
                                    argsv.len() as int,
                                );
                            }
                            fail = true;
                        },
                    }
                },
                None => {
                    proof {
                        assert(argsv[k as int] is None);
                        assert(spec_arm_args_types(argsv, rec@.preps, k + 1) is None);
                        lemma_arm_args_none(argsv, rec@.preps, k + 1, argsv.len() as int);
                    }
                    fail = true;
                },
            }
        }
        k = k + 1;
    }
    if fail {
        return None;
    }
    if mitigation_rejects(mitigations, ret_type, &out) {
        return None;
    }
    let intrinsic = ARMSIMDIntrinsic {
        intrinsic_name: name.clone(),
        return_type: ret_type,
        param_types: out,
    };
    proof {
        assert(arm_intrinsic_sig_ok(intrinsic@));
    }
    Some(intrinsic)
}

pub open spec fn arm_intrinsics_v(s: Seq<ARMSIMDIntrinsic>) -> Seq<ARMSIMDIntrinsicV> {
    Seq::new(s.len(), |i: int| s[i]@)
}

/// The intrinsics kept from the first `k` document entries, in order.
pub open spec fn spec_arm_parse_recs(recs: Seq<ArmJsonRecV>, mits: Seq<String>, k: int) -> Seq<
    ARMSIMDIntrinsicV,
>
    decreases k,
{
    if k <= 0 {
        Seq::empty()
    } else {
        let acc = spec_arm_parse_recs(recs, mits, k - 1);
        match spec_arm_rec_result(recs[k - 1], mits) {
            None => acc,
            Some(x) => acc.push(x),
        }
    }
}

/// Parse the ARM intrinsic catalog: keep each NEON intrinsic whose signature
/// we can produce and load, skipping stores and loads, the block list, and
/// whatever the configured mitigations name.  The result is pinned to the
/// document's entries; every returned signature is producible, so the
/// catalog built from it satisfies the generator's conditions.
pub fn parse_arm_intrinsics_json(spec_contents: &str, mitigations: &Vec<String>) -> (r: Option<
    Vec<ARMSIMDIntrinsic>,
>)
    ensures
        match r {
            Some(v) => arm_doc_of(spec_contents@) matches Some(recs) && arm_intrinsics_v(v@)
                == spec_arm_parse_recs(recs, mitigations@, recs.len() as int) && forall|i: int|
                0 <= i < v@.len() ==> arm_intrinsic_sig_ok((#[trigger] v@[i])@),
            None => arm_doc_of(spec_contents@) is None,
        },
{
    let n = match arm_doc_count(spec_contents) {
        Some(n) => n,
        None => {
            return None;
        },
    };
    let ghost recs = arm_doc_of(spec_contents@).unwrap();
    let disallowed = get_disallowed_intrinsics();
    let mut intrinsics_list: Vec<ARMSIMDIntrinsic> = Vec::new();
    proof {
        assert(arm_intrinsics_v(intrinsics_list@) =~= Seq::<ARMSIMDIntrinsicV>::empty());
    }
    let mut e: usize = 0;
    while e < n
        invariant
            arm_doc_of(spec_contents@) == Some(recs),
            n == recs.len(),
            e <= n,
            disallowed@.len() == spec_disallowed_arm_intrinsics().len(),
            forall|i: int|
                0 <= i < disallowed@.len() ==> (#[trigger] disallowed@[i])@
                    == spec_disallowed_arm_intrinsics()[i],
            arm_intrinsics_v(intrinsics_list@) == spec_arm_parse_recs(recs, mitigations@, e as int),
            forall|i: int|
                0 <= i < intrinsics_list@.len() ==> arm_intrinsic_sig_ok(
                    (#[trigger] intrinsics_list@[i])@,
                ),
        decreases n - e,
    {
        let h = match arm_rec_header_at(spec_contents, e) {
            Some(h) => h,
            None => {
                proof {
                    assert(false);
                }
                return None;
            },
        };
        let archs = match arm_rec_archs_at(spec_contents, e) {
            Some(a) => a,
            None => {
                proof {
                    assert(false);
                }
                return None;
            },
        };
        let args = match arm_rec_args_at(spec_contents, e) {
            Some(a) => a,
            None => {
                proof {
                    assert(false);
                }
                return None;
            },
        };
        let preps = match arm_rec_preps_at(spec_contents, e) {
            Some(p) => p,
            None => {
                proof {
                    assert(false);
                }
                return None;
            },
        };
        let rec = ArmJsonRec {
            simd_isa: h.simd_isa,
            name: h.name,
            ret_value: h.ret_value,
            archs,
            args,
            preps,
        };
        proof {
            assert(rec@ == recs[e as int]);
        }
        match arm_rec_step(&rec, mitigations, &disallowed) {
            Some(x) => {
                let ghost before = arm_intrinsics_v(intrinsics_list@);
                intrinsics_list.push(x);
                proof {
                    assert(arm_intrinsics_v(intrinsics_list@) =~= before.push(x@));
                    assert(arm_intrinsics_v(intrinsics_list@) == spec_arm_parse_recs(
                        recs,
                        mitigations@,
                        e + 1,
                    ));
                }
            },
            None => {
                proof {
                    assert(arm_intrinsics_v(intrinsics_list@) == spec_arm_parse_recs(
                        recs,
                        mitigations@,
                        e + 1,
                    ));
                }
            },
        }
        e = e + 1;
    }
    Some(intrinsics_list)
}

/// Whether a configured mitigation rejects a signature: the floating-point,
/// polynomial, and half-precision disables.
fn mitigation_rejects(
    mitigations: &Vec<String>,
    ret_type: ARMSIMDType,
    args: &Vec<ARMSIMDType>,
) -> (r: bool)
    ensures
        r == spec_mitigation_rejects(mitigations@, ret_type, args@),
{
    if name_on_list(mitigations, "AVOID_FLOATING_POINT") {
        if is_arm_simd_type_floating_point(ret_type) || any_arg_float(args) {
            return true;
        }
    }
    if name_on_list(mitigations, "AVOID_POLY128") && base_anywhere(
        ret_type,
        args,
        ARMBaseType::Poly128,
    ) {
        return true;
    }
    if name_on_list(mitigations, "AVOID_POLY64") && base_anywhere(
        ret_type,
        args,
        ARMBaseType::Poly64,
    ) {
        return true;
    }
    if name_on_list(mitigations, "AVOID_POLY32") && base_anywhere(
        ret_type,
        args,
        ARMBaseType::Poly32,
    ) {
        return true;
    }
    if name_on_list(mitigations, "AVOID_POLY16") && base_anywhere(
        ret_type,
        args,
        ARMBaseType::Poly16,
    ) {
        return true;
    }
    if name_on_list(mitigations, "AVOID_POLY8") && base_anywhere(
        ret_type,
        args,
        ARMBaseType::Poly8,
    ) {
        return true;
    }
    if base_anywhere(ret_type, args, ARMBaseType::Float16) {
        return true;
    }
    if base_anywhere(ret_type, args, ARMBaseType::BFloat16) {
        return true;
    }
    false
}

/// Whether any argument carries floating-point data.
fn any_arg_float(args: &Vec<ARMSIMDType>) -> (r: bool)
    ensures
        r == spec_any_arg_float(args@),
{
    let mut i: usize = 0;
    while i < args.len()
        invariant
            i <= args@.len(),
            forall|k: int|
                0 <= k < i ==> !spec_is_arm_simd_type_floating_point(#[trigger] args@[k]),
        decreases args@.len() - i,
    {
        if is_arm_simd_type_floating_point(args[i]) {
            return true;
        }
        i = i + 1;
    }
    false
}
/// Whether the base type occurs in the return type or any argument.
fn base_anywhere(ret_type: ARMSIMDType, args: &Vec<ARMSIMDType>, b: ARMBaseType) -> (r: bool)
    ensures
        r == spec_base_anywhere(ret_type, args@, b),
{
    if is_arm_simd_type_base_type(ret_type, b) {
        return true;
    }
    let mut i: usize = 0;
    while i < args.len()
        invariant
            i <= args@.len(),
            !spec_is_arm_simd_type_base_type(ret_type, b),
            forall|k: int| 0 <= k < i ==> !spec_is_arm_simd_type_base_type(#[trigger] args@[k], b),
        decreases args@.len() - i,
    {
        if is_arm_simd_type_base_type(args[i], b) {
            return true;
        }
        i = i + 1;
    }
    false
}

/// Group parsed intrinsics by return type; the result is a catalog the
/// generator's conditions hold of.
pub fn build_arm_catalog(intrinsics: &Vec<ARMSIMDIntrinsic>) -> (r: ARMIntrinsicsByType)
    requires
        forall|i: int|
            0 <= i < intrinsics@.len() ==> arm_intrinsic_sig_ok((#[trigger] intrinsics@[i])@),
    ensures
        catalog_wf(r@),
        forall|i: int|
            0 <= i < r@.len() ==> !((#[trigger] r@[i].key) is ConstantIntImmediate)
                && arm_type_emit_ok(r@[i].key) && r@[i].intrinsics.len() > 0,
{
    // Collect the distinct return types.
    let mut keys: Vec<ARMSIMDType> = Vec::new();
    let mut k: usize = 0;
    while k < intrinsics.len()
        invariant
            k <= intrinsics@.len(),
            forall|i: int|
                0 <= i < intrinsics@.len() ==> arm_intrinsic_sig_ok((#[trigger] intrinsics@[i])@),
            forall|a: int, b: int| 0 <= a < b < keys@.len() ==> keys@[a] != keys@[b],
            forall|a: int|
                0 <= a < keys@.len() ==> !((#[trigger] keys@[a]) is ConstantIntImmediate)
                    && arm_type_emit_ok(keys@[a]),
        decreases intrinsics@.len() - k,
    {
        let key = intrinsics[k].return_type;
        let mut seen = false;
        let mut a: usize = 0;
        while a < keys.len()
            invariant
                a <= keys@.len(),
                seen ==> keys@.contains(key),
                !seen ==> forall|b: int| 0 <= b < a ==> keys@[b] != key,
            decreases keys@.len() - a,
        {
            if keys[a] == key {
                seen = true;
            }
            a = a + 1;
        }
        if !seen {
            proof {
                assert(arm_intrinsic_sig_ok(intrinsics@[k as int]@));
                assert(arm_type_emit_ok(key));
            }
            keys.push(key);
        }
        k = k + 1;
    }
    // One catalog entry per key.
    let mut entries: Vec<ARMTypeIntrinsics> = Vec::new();
    let mut ki: usize = 0;
    while ki < keys.len()
        invariant
            ki <= keys@.len(),
            forall|i: int|
                0 <= i < intrinsics@.len() ==> arm_intrinsic_sig_ok((#[trigger] intrinsics@[i])@),
            forall|a: int, b: int| 0 <= a < b < keys@.len() ==> keys@[a] != keys@[b],
            forall|a: int|
                0 <= a < keys@.len() ==> !((#[trigger] keys@[a]) is ConstantIntImmediate)
                    && arm_type_emit_ok(keys@[a]),
            entries@.len() <= ki,
            forall|i: int|
                0 <= i < entries@.len() ==> exists|a: int|
                    0 <= a < ki && (#[trigger] entries@[i]@.key) == keys@[a],
            forall|a: int, b: int|
                0 <= a < b < entries@.len() ==> (#[trigger] entries@[a]@.key) != (
                #[trigger] entries@[b]@.key),
            forall|i: int, k2: int|
                0 <= i < entries@.len() && 0 <= k2 < entries@[i]@.intrinsics.len() ==> {
                    let x = (#[trigger] entries@[i]@.intrinsics[k2]);
                    &&& x.return_type == entries@[i]@.key
                    &&& x.param_types.len() <= 32
                    &&& forall|p: int|
                        0 <= p < x.param_types.len() ==> match #[trigger] x.param_types[p] {
                            ARMSIMDType::ConstantIntImmediate(mn, mx) => mn <= mx,
                            _ => arm_type_emit_ok(x.param_types[p]),
                        }
                },
            forall|i: int|
                0 <= i < entries@.len() ==> !((#[trigger] entries@[i]@.key)
                    is ConstantIntImmediate) && arm_type_emit_ok(entries@[i]@.key)
                    && entries@[i]@.intrinsics.len() > 0,
        decreases keys@.len() - ki,
    {
        let key = keys[ki];
        let mut bucket: Vec<ARMSIMDIntrinsic> = Vec::new();
        let mut m: usize = 0;
        while m < intrinsics.len()
            invariant
                m <= intrinsics@.len(),
                forall|i: int|
                    0 <= i < intrinsics@.len() ==> arm_intrinsic_sig_ok(
                        (#[trigger] intrinsics@[i])@,
                    ),
                forall|i: int|
                    0 <= i < bucket@.len() ==> {
                        let x = (#[trigger] bucket@[i])@;
                        &&& x.return_type == key
                        &&& x.param_types.len() <= 32
                        &&& forall|p: int|
                            0 <= p < x.param_types.len() ==> match #[trigger] x.param_types[p] {
                                ARMSIMDType::ConstantIntImmediate(mn, mx) => mn <= mx,
                                _ => arm_type_emit_ok(x.param_types[p]),
                            }
                    },
            decreases intrinsics@.len() - m,
        {
            if intrinsics[m].return_type == key {
                proof {
                    assert(arm_intrinsic_sig_ok(intrinsics@[m as int]@));
                }
                bucket.push(intrinsics[m].clone());
            }
            m = m + 1;
        }
        if bucket.len() > 0 {
            let ghost before = entries@;
            entries.push(ARMTypeIntrinsics { key, intrinsics: bucket });
            proof {
                assert forall|i: int|
                    0 <= i < entries@.len() implies exists|a: int|
                    0 <= a < ki + 1 && (#[trigger] entries@[i]@.key) == keys@[a] by {
                    if i < before.len() {
                        assert(entries@[i] == before[i]);
                        let a = choose|a: int|
                            0 <= a < ki && (#[trigger] before[i]@.key) == keys@[a];
                        assert(0 <= a < ki + 1 && entries@[i]@.key == keys@[a]);
                    } else {
                        assert(entries@[i]@.key == keys@[ki as int]);
                    }
                }
                assert forall|a: int, b: int|
                    0 <= a < b < entries@.len() implies (#[trigger] entries@[a]@.key) != (
                #[trigger] entries@[b]@.key) by {
                    if b < before.len() {
                        assert(entries@[a] == before[a] && entries@[b] == before[b]);
                    } else {
                        assert(entries@[a] == before[a]);
                        let a2 = choose|a2: int|
                            0 <= a2 < ki && (#[trigger] before[a]@.key) == keys@[a2];
                        assert(entries@[b]@.key == keys@[ki as int]);
                        assert(keys@[a2] != keys@[ki as int]);
                    }
                }
            }
        }
        ki = ki + 1;
    }
    let r = ARMIntrinsicsByType { entries };
    proof {
        assert forall|i: int, j2: int| 0 <= i < j2 < r@.len() implies (#[trigger] r@[i].key) != (
        #[trigger] r@[j2].key) by {
            assert(r@[i] == entries@[i]@ && r@[j2] == entries@[j2]@);
        }
    }
    r
}

} // verus!

verus! {

/// One entry of an intrinsic's argument-preparation table, as plain values:
/// the argument's name and its `minimum`/`maximum` fields, each kept both as
/// the number the document holds and as the string it holds, whichever it is.
#[derive(Debug)]
pub struct ArmPrepRec {
    pub key: String,
    pub min_i: Option<i64>,
    pub min_s: Option<String>,
    pub max_i: Option<i64>,
    pub max_s: Option<String>,
}

pub struct ArmPrepRecV {
    pub key: Seq<char>,
    pub min_i: Option<i64>,
    pub min_s: Option<Seq<char>>,
    pub max_i: Option<i64>,
    pub max_s: Option<Seq<char>>,
}

impl View for ArmPrepRec {
    type V = ArmPrepRecV;

    open spec fn view(&self) -> ArmPrepRecV {
        ArmPrepRecV {
            key: self.key@,
            min_i: self.min_i,
            min_s: match self.min_s {
                Some(s) => Some(s@),
                None => None,
            },
            max_i: self.max_i,
            max_s: match self.max_s {
                Some(s) => Some(s@),
                None => None,
            },
        }
    }
}

/// One entry of the intrinsics document, as plain values: each field is
/// `None` when the document lacks it or holds it with another shape.
#[derive(Debug)]
pub struct ArmJsonRec {
    pub simd_isa: Option<String>,
    pub name: Option<String>,
    pub ret_value: Option<String>,
    pub archs: Vec<Option<String>>,
    pub args: Option<Vec<Option<String>>>,
    pub preps: Option<Vec<ArmPrepRec>>,
}

pub struct ArmJsonRecV {
    pub simd_isa: Option<Seq<char>>,
    pub name: Option<Seq<char>>,
    pub ret_value: Option<Seq<char>>,
    pub archs: Seq<Option<Seq<char>>>,
    pub args: Option<Seq<Option<Seq<char>>>>,
    pub preps: Option<Seq<ArmPrepRecV>>,
}

pub open spec fn opt_str_v(s: Option<String>) -> Option<Seq<char>> {
    match s {
        Some(s) => Some(s@),
        None => None,
    }
}

pub open spec fn opt_strs_v(l: Seq<Option<String>>) -> Seq<Option<Seq<char>>> {
    Seq::new(l.len(), |i: int| opt_str_v(l[i]))
}

impl View for ArmJsonRec {
    type V = ArmJsonRecV;

    open spec fn view(&self) -> ArmJsonRecV {
        ArmJsonRecV {
            simd_isa: opt_str_v(self.simd_isa),
            name: opt_str_v(self.name),
            ret_value: opt_str_v(self.ret_value),
            archs: opt_strs_v(self.archs@),
            args: match self.args {
                Some(l) => Some(opt_strs_v(l@)),
                None => None,
            },
            preps: match self.preps {
                Some(l) => Some(Seq::new(l@.len(), |i: int| l@[i]@)),
                None => None,
            },
        }
    }
}

/// The entries of the intrinsics document, a function of its text alone;
/// `None` when the text is not a JSON array.
pub uninterp spec fn arm_doc_of(s: Seq<char>) -> Option<Seq<ArmJsonRecV>>;

/// Relies on `serde_json::from_str`: whether the document text is a JSON
/// array, and how many entries it holds, determined by the text alone.
#[verifier::external_body]
fn arm_doc_count(doc: &str) -> (r: Option<usize>)
    ensures
        match r {
            Some(n) => arm_doc_of(doc@) matches Some(l) && l.len() == n,
            None => arm_doc_of(doc@) is None,
        },
{
    let v: serde_json::Value = serde_json::from_str(doc).ok()?;
    Some(v.as_array()?.len())
}

/// The scalar fields of one entry.
#[derive(Debug)]
pub struct ArmJsonHeader {
    pub simd_isa: Option<String>,
    pub name: Option<String>,
    pub ret_value: Option<String>,
}

/// Relies on `serde_json::from_str` and `Value::get`/`as_str`: the `i`-th
/// entry's `SIMD_ISA`, `name`, and `return_type.value` strings, determined
/// by the text alone.
#[verifier::external_body]
fn arm_rec_header_at(doc: &str, i: usize) -> (r: Option<ArmJsonHeader>)
    ensures
        match r {
            Some(h) => match arm_doc_of(doc@) {
                Some(l) => i >= l.len() || {
                    &&& opt_str_v(h.simd_isa) == l[i as int].simd_isa
                    &&& opt_str_v(h.name) == l[i as int].name
                    &&& opt_str_v(h.ret_value) == l[i as int].ret_value
                },
                None => false,
            },
            None => arm_doc_of(doc@) is None || (arm_doc_of(doc@) matches Some(l) && i >= l.len()),
        },
{
    let v: serde_json::Value = serde_json::from_str(doc).ok()?;
    let e = v.as_array()?.get(i)?;
    Some(ArmJsonHeader {
        simd_isa: e.get("SIMD_ISA").and_then(|x| x.as_str()).map(|s| s.to_string()),
        name: e.get("name").and_then(|x| x.as_str()).map(|s| s.to_string()),
        ret_value: e.get("return_type").and_then(|x| x.get("value")).and_then(|x| x.as_str()).map(|s| s.to_string()),
    })
}

/// Relies on `serde_json`: the `i`-th entry's `Architectures` list, each
/// element as a string or `None`; empty when the list is missing or not a
/// list.  Determined by the text alone.
#[verifier::external_body]
fn arm_rec_archs_at(doc: &str, i: usize) -> (r: Option<Vec<Option<String>>>)
    ensures
        match r {
            Some(v) => match arm_doc_of(doc@) {
                Some(l) => i >= l.len() || opt_strs_v(v@) == l[i as int].archs,
                None => false,
            },
            None => arm_doc_of(doc@) is None || (arm_doc_of(doc@) matches Some(l) && i >= l.len()),
        },
{
    let v: serde_json::Value = serde_json::from_str(doc).ok()?;
    let e = v.as_array()?.get(i)?;
    Some(match e.get("Architectures").and_then(|x| x.as_array()) {
        Some(a) => a.iter().map(|x| x.as_str().map(|s| s.to_string())).collect(),
        None => Vec::new(),
    })
}

/// Relies on `serde_json`: the `i`-th entry's `arguments` list, `None` when
/// missing or not a list, each element as a string or `None`.  Determined by
/// the text alone.
#[verifier::external_body]
fn arm_rec_args_at(doc: &str, i: usize) -> (r: Option<Option<Vec<Option<String>>>>)
    ensures
        match r {
            Some(args) => match arm_doc_of(doc@) {
                Some(l) => i >= l.len() || (match args {
                    Some(v) => l[i as int].args == Some(opt_strs_v(v@)),
                    None => l[i as int].args is None,
                }),
                None => false,
            },
            None => arm_doc_of(doc@) is None || (arm_doc_of(doc@) matches Some(l) && i >= l.len()),
        },
{
    let v: serde_json::Value = serde_json::from_str(doc).ok()?;
    let e = v.as_array()?.get(i)?;
    Some(e.get("arguments").and_then(|x| x.as_array()).map(
        |a| a.iter().map(|x| x.as_str().map(|s| s.to_string())).collect(),
    ))
}

/// Relies on `serde_json`: the `i`-th entry's `Arguments_Preparation` table
/// as plain records in the map's order, `None` when missing or not an
/// object.  Determined by the text alone.
#[verifier::external_body]
fn arm_rec_preps_at(doc: &str, i: usize) -> (r: Option<Option<Vec<ArmPrepRec>>>)
    ensures
        match r {
            Some(preps) => match arm_doc_of(doc@) {
                Some(l) => i >= l.len() || (match preps {
                    Some(v) => l[i as int].preps == Some(
                        Seq::new(v@.len(), |k: int| v@[k]@),
                    ),
                    None => l[i as int].preps is None,
                }),
                None => false,
            },
            None => arm_doc_of(doc@) is None || (arm_doc_of(doc@) matches Some(l) && i >= l.len()),
        },
{
    let v: serde_json::Value = serde_json::from_str(doc).ok()?;
    let e = v.as_array()?.get(i)?;
    Some(e.get("Arguments_Preparation").and_then(|x| x.as_object()).map(|m| m.iter().map(
        |(k, p)| ArmPrepRec {
            key: k.to_string(),
            min_i: p.get("minimum").and_then(|x| x.as_i64()),
            min_s: p.get("minimum").and_then(|x| x.as_str()).map(|s| s.to_string()),
            max_i: p.get("maximum").and_then(|x| x.as_i64()),
            max_s: p.get("maximum").and_then(|x| x.as_str()).map(|s| s.to_string()),
        },
    ).collect()))
}

} // verus!

verus! {

/// Whether a name stands on a list of strings.
pub open spec fn spec_name_on(l: Seq<String>, name: Seq<char>) -> bool {
    exists|i: int| 0 <= i < l.len() && (#[trigger] l[i])@ == name
}

/// Whether a name is one of the disallowed intrinsics.
pub open spec fn spec_on_disallowed(name: Seq<char>) -> bool {
    exists|i: int|
        0 <= i < spec_disallowed_arm_intrinsics().len() && spec_disallowed_arm_intrinsics()[i]
            == name
}

/// A `minimum`/`maximum` field read as a 32-bit integer: the number the
/// document holds, or the whole of the decimal string it holds.
pub open spec fn spec_int_from_raw(vi: Option<i64>, vs: Option<Seq<char>>) -> Option<i32> {
    match vi {
        Some(v) => if v < i32::MIN as i64 || v > i32::MAX as i64 {
            None
        } else {
            Some(v as i32)
        },
        None => match vs {
            Some(s) => match crate::fmt_num::spec_take_int(s, 0) {
                Some((v, end)) => if end == s.len() && i32::MIN as int <= v && v <= i32::MAX
                    as int {
                    Some(v as i32)
                } else {
                    None
                },
                None => None,
            },
            None => None,
        },
    }
}

fn int_from_raw(vi: Option<i64>, vs: Option<&String>) -> (r: Option<i32>)
    ensures
        r == spec_int_from_raw(
            vi,
            match vs {
                Some(s) => Some(s@),
                None => None,
            },
        ),
{
    match vi {
        Some(v) => {
            if v < i32::MIN as i64 || v > i32::MAX as i64 {
                None
            } else {
                Some(v as i32)
            }
        },
        None => {
            match vs {
                Some(s) => {
                    match crate::fmt_num::take_int_i64(s.as_str(), 0) {
                        Some((v, end)) => {
                            if end == s.as_str().unicode_len() && v >= i32::MIN as i64 && v
                                <= i32::MAX as i64 {
                                Some(v as i32)
                            } else {
                                None
                            }
                        },
                        None => None,
                    }
                },
                None => None,
            }
        },
    }
}

pub open spec fn preps_list_v(l: Seq<ArmPrepRec>) -> Seq<ArmPrepRecV> {
    Seq::new(l.len(), |i: int| l[i]@)
}

pub open spec fn preps_v(p: Option<Vec<ArmPrepRec>>) -> Option<Seq<ArmPrepRecV>> {
    match p {
        Some(l) => Some(preps_list_v(l@)),
        None => None,
    }
}

/// The first preparation entry under a key.
pub open spec fn spec_assoc_rec(l: Seq<ArmPrepRecV>, key: Seq<char>) -> Option<ArmPrepRecV>
    decreases l.len(),
{
    if l.len() == 0 {
        None
    } else if l[0].key == key {
        Some(l[0])
    } else {
        spec_assoc_rec(l.drop_first(), key)
    }
}

pub open spec fn spec_prep_assoc(preps: Option<Seq<ArmPrepRecV>>, key: Seq<char>) -> Option<
    ArmPrepRecV,
> {
    match preps {
        None => None,
        Some(l) => spec_assoc_rec(l, key),
    }
}

impl Clone for ArmPrepRec {
    fn clone(&self) -> (r: Self)
        ensures
            r@ == self@,
    {
        ArmPrepRec {
            key: self.key.clone(),
            min_i: self.min_i,
            min_s: match &self.min_s {
                Some(s) => Some(s.clone()),
                None => None,
            },
            max_i: self.max_i,
            max_s: match &self.max_s {
                Some(s) => Some(s.clone()),
                None => None,
            },
        }
    }
}

/// Find the first preparation entry under a key.
fn prep_lookup(plist: &Vec<ArmPrepRec>, key: &str) -> (r: Option<ArmPrepRec>)
    ensures
        match r {
            Some(p) => spec_assoc_rec(preps_list_v(plist@), key@) == Some(p@),
            None => spec_assoc_rec(preps_list_v(plist@), key@) is None,
        },
{
    proof {
        assert(preps_list_v(plist@).skip(0) =~= preps_list_v(plist@));
    }
    let mut li: usize = 0;
    while li < plist.len()
        invariant
            li <= plist@.len(),
            spec_assoc_rec(preps_list_v(plist@), key@) == spec_assoc_rec(
                preps_list_v(plist@).skip(li as int),
                key@,
            ),
        decreases plist@.len() - li,
    {
        proof {
            assert(preps_list_v(plist@).skip(li as int)[0] == preps_list_v(plist@)[li as int]);
            assert(preps_list_v(plist@).skip(li as int).drop_first() =~= preps_list_v(
                plist@,
            ).skip(li as int + 1));
        }
        if str_eq(plist[li].key.as_str(), key) {
            return Some(plist[li].clone());
        }
        li = li + 1;
    }
    proof {
        assert(preps_list_v(plist@).skip(plist@.len() as int) =~= Seq::<ArmPrepRecV>::empty());
    }
    None
}

/// The type of one argument string: a `const int` argument becomes the
/// constant range its preparation entry declares; anything else is parsed
/// from its first word and must be an emit-ready type.  Pointers and
/// unknown or unusable types are refused.
pub open spec fn spec_arm_arg_type(arg: Seq<char>, preps: Option<Seq<ArmPrepRecV>>) -> Option<
    ARMSIMDType,
> {
    if exists|i: int| 0 <= i < arg.len() && arg[i] == '*' {
        None
    } else if arg.len() >= 10 && arg.subrange(0, 10) == "const int "@ {
        match spec_prep_assoc(preps, arg.skip(10)) {
            None => None,
            Some(p) => match (spec_int_from_raw(p.min_i, p.min_s), spec_int_from_raw(
                p.max_i,
                p.max_s,
            )) {
                (Some(mn), Some(mx)) => if mn > mx {
                    None
                } else {
                    Some(ARMSIMDType::ConstantIntImmediate(mn, mx))
                },
                _ => None,
            },
        }
    } else {
        match spec_parse_arm_simd_type(spec_first_word(arg)) {
            Some(t) => if arm_type_emit_ok(t) {
                Some(t)
            } else {
                None
            },
            None => None,
        }
    }
}

fn arm_arg_type(arg: &str, preps: &Option<Vec<ArmPrepRec>>) -> (r: Option<ARMSIMDType>)
    ensures
        r == spec_arm_arg_type(arg@, preps_v(*preps)),
        r matches Some(t) ==> match t {
            ARMSIMDType::ConstantIntImmediate(mn, mx) => mn <= mx,
            _ => arm_type_emit_ok(t),
        },
{
    if contains_char(arg, '*') {
        return None;
    }
    let n = arg.unicode_len();
    if n >= 10 && str_eq(arg.substring_char(0, 10), "const int ") {
        let arg_name = arg.substring_char(10, n);
        proof {
            assert(arg_name@ =~= arg@.skip(10));
        }
        let plist = match preps {
            Some(l) => l,
            None => {
                return None;
            },
        };
        let p = match prep_lookup(plist, arg_name) {
            Some(p) => p,
            None => {
                return None;
            },
        };
        let mn = match int_from_raw(
            p.min_i,
            match &p.min_s {
                Some(s) => Some(s),
                None => None,
            },
        ) {
            Some(v) => v,
            None => {
                return None;
            },
        };
        let mx = match int_from_raw(
            p.max_i,
            match &p.max_s {
                Some(s) => Some(s),
                None => None,
            },
        ) {
            Some(v) => v,
            None => {
                return None;
            },
        };
        if mn > mx {
            return None;
        }
        Some(ARMSIMDType::ConstantIntImmediate(mn, mx))
    } else {
        let tname = first_word(arg);
        match parse_arm_simd_type(tname.as_str()) {
            Some(t) => {
                if arm_type_emit_ok_exec(t) {
                    Some(t)
                } else {
                    None
                }
            },
            None => None,
        }
    }
}

/// The parsed types of the first `k` argument strings; `None` when one is
/// refused.
pub open spec fn spec_arm_args_types(
    args: Seq<Option<Seq<char>>>,
    preps: Option<Seq<ArmPrepRecV>>,
    k: int,
) -> Option<Seq<ARMSIMDType>>
    decreases k,
{
    if k <= 0 {
        Some(Seq::empty())
    } else {
        match spec_arm_args_types(args, preps, k - 1) {
            None => None,
            Some(acc) => match args[k - 1] {
                None => None,
                Some(a) => match spec_arm_arg_type(a, preps) {
                    None => None,
                    Some(t) => Some(acc.push(t)),
                },
            },
        }
    }
}

pub proof fn lemma_arm_args_none(
    args: Seq<Option<Seq<char>>>,
    preps: Option<Seq<ArmPrepRecV>>,
    k: int,
    n: int,
)
    requires
        0 <= k <= n,
        spec_arm_args_types(args, preps, k) is None,
    ensures
        spec_arm_args_types(args, preps, n) is None,
    decreases n - k,
{
    if n > k {
        lemma_arm_args_none(args, preps, k, n - 1);
    }
}

pub open spec fn spec_any_arg_float(args: Seq<ARMSIMDType>) -> bool {
    exists|i: int|
        0 <= i < args.len() && spec_is_arm_simd_type_floating_point(#[trigger] args[i])
}

pub open spec fn spec_base_anywhere(
    rt: ARMSIMDType,
    args: Seq<ARMSIMDType>,
    b: ARMBaseType,
) -> bool {
    spec_is_arm_simd_type_base_type(rt, b) || exists|i: int|
        0 <= i < args.len() && spec_is_arm_simd_type_base_type(#[trigger] args[i], b)
}

/// Whether a configured mitigation rejects a signature: the floating-point
/// and polynomial disables, and the always-on half-precision ones.
pub open spec fn spec_mitigation_rejects(
    mits: Seq<String>,
    rt: ARMSIMDType,
    args: Seq<ARMSIMDType>,
) -> bool {
    ||| (spec_name_on(mits, "AVOID_FLOATING_POINT"@) && (spec_is_arm_simd_type_floating_point(rt)
        || spec_any_arg_float(args)))
    ||| (spec_name_on(mits, "AVOID_POLY128"@) && spec_base_anywhere(rt, args, ARMBaseType::Poly128))
    ||| (spec_name_on(mits, "AVOID_POLY64"@) && spec_base_anywhere(rt, args, ARMBaseType::Poly64))
    ||| (spec_name_on(mits, "AVOID_POLY32"@) && spec_base_anywhere(rt, args, ARMBaseType::Poly32))
    ||| (spec_name_on(mits, "AVOID_POLY16"@) && spec_base_anywhere(rt, args, ARMBaseType::Poly16))
    ||| (spec_name_on(mits, "AVOID_POLY8"@) && spec_base_anywhere(rt, args, ARMBaseType::Poly8))
    ||| spec_base_anywhere(rt, args, ARMBaseType::Float16)
    ||| spec_base_anywhere(rt, args, ARMBaseType::BFloat16)
}

} // verus!
