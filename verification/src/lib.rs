//! Differential and crash fuzzer core for compiler SIMD / inline-assembly
//! code generation: symbolic program graphs, C++ emission, delta
//! minimization, object-file loading, and the codecs that tie them together.
use vstd::prelude::*;

mod aligned_slice;
mod arm_codec;
mod arm_parse;
mod arm_types;
mod gen_arm;
mod graph_arm;
mod asm_fuzz;
mod arm_fuzz;
mod config;
mod emit_arm;
mod emit_x86;
mod exec_page;
mod fmt_num;
mod input_codec;
mod gen_x86;
mod graph_x86;
mod loader;
mod loop_fuzz;
mod rand;
mod x86_fuzz;
mod x86_parse;
mod x86_types;

pub use gen_x86::{X86TypeIntrinsics, X86TypeIntrinsicsV, X86IntrinsicsByType};
pub use x86_parse::{
    X86XmlParam, X86XmlRec, parse_etype_from_str, parse_type_from_str, parse_type_from_str_no_imm,
    x86_cpuid_valid, x86_name_disallowed, spec_parse_x86_etype, spec_parse_x86_type,
    spec_parse_x86_type_no_imm, spec_x86_cpuid_valid, spec_x86_name_disallowed, xml_intrinsics_of,
    parse_intel_intrinsics_xml, x86_intrinsic_sig_ok, spec_x86_parse_recs, spec_x86_rec_result,
    x86_intrinsics_v,
};
pub use graph_x86::{
    X86SIMDCodegenIntrinsic, X86SIMDCodegenIntrinsicV, X86SIMDOptBaitNode, X86SIMDCodegenNode,
    X86NodeV, X86TypeBucket, X86TypeBucketV, X86SIMDCodegenCtx, X86CtxV,
};
pub use fmt_num::{u64_to_dec, usize_to_dec, u32_to_dec, i64_to_dec, i32_to_dec};
pub use emit_arm::generate_cpp_code_from_arm_codegen_ctx;
pub use emit_x86::generate_cpp_code_from_codegen_ctx;
pub use gen_x86::{generate_codegen_ctx, catalog_wf as x86_catalog_wf, build_x86_catalog,
    find_usable_ending_entry, usable_ending_entry};
pub use graph_x86::minimize_gen_x86_code;
pub use arm_types::{
    ARMBaseType, ARMSIMDType, ARMSIMDIntrinsic, ARMSIMDIntrinsicV, parse_arm_simd_type, str_eq,
    is_arm_base_type_floating_point, is_arm_simd_type_floating_point, arm_base_type_size_bytes,
    arm_simd_type_size_bytes, is_arm_simd_type_base_type, is_arm_simd_type_simd,
    arm_base_type_to_cpp_type_name, arm_simd_type_to_cpp_type_name, arm_simd_type_to_ld_func,
    arm_make_simd_type_name, arm_make_simd_arr_type_name, arm_base_type_to_load_abbrev,
};
pub use gen_arm::{ARMTypeIntrinsics, ARMTypeIntrinsicsV, ARMIntrinsicsByType, generate_arm_codegen_ctx};
pub use graph_arm::{
    ARMSIMDCodegenIntrinsic, ARMSIMDCodegenIntrinsicV, ARMSIMDCodegenNode, ARMNodeV,
    ARMTypeBucket, ARMTypeBucketV, ARMSIMDCodegenCtx, ARMCtxV, minimize_gen_arm_code,
};
pub use arm_codec::{
    ARMCodegenFuzzerCodeMetadata, save_meta_to_string, read_meta_from_string, lemma_meta_roundtrip,
    base_type_to_core_type_and_ln2_bits, core_type_and_ln2_bits_to_base_type, encode_simd_count,
    decode_simd_count, encode_return_type, decode_return_type, lemma_return_type_roundtrip,
};
pub use input_codec::{ARMCodeFuzzerInputValues, save_input_to_string, read_input_from_string};
pub use loop_fuzz::{
    LoopCodegenValue, LoopCodegenOp, LoopCodegenCondOp, LoopCodegenCond, LoopCodegenNode,
    LoopCodegenCtx, LoopFuzzerCodeMetadata, LoopFuzzerThreadInput, LoopFuzzer,
    LoopFuzzerInputValues, LoopFuzzerOutputValues, get_op_symbol, cond_op_to_code,
    get_rand_cond_op,
};
pub use asm_fuzz::{
    AsmCodegenAsmValue, AsmCodegenOpcode, AsmCodegenAsmStmt, AsmCodegenRegConstraints,
    AsmCodegenNodeAsm, AsmCodegenCppOp, AsmCodegenNodeCpp, AsmCodegenNode, AsmCodegenCtx,
    AsmFuzzerCodeMetadata, AsmFuzzerThreadInput, AsmFuzzer, AsmFuzzerInputValues,
    AsmFuzzerOutputValues, gen_vec_of_length_and_max_val,
};
pub use asm_fuzz::AsmRegister;
pub use arm_codec::return_type_encodable;
pub use aligned_slice::{AlignedSlice, test_aligned_slice_with_alignment};
pub use exec_page::ExecPage;
pub use loader::{SectionRec, SectionV, SymbolRec, SymbolV, RelocRec};
pub use loader::{compose_image, parse_obj_file, align_vec, check_records_bounded};
pub use x86_fuzz::{
    X86CodegenFuzzerCodeMetadata, X86CodegenFuzzerThreadInput, X86CodegenFuzzer,
    X86CodeFuzzerInputValues, X86SIMDOutputValues,
};
pub use arm_fuzz::{ARMCodegenFuzzerThreadInput, ARMCodegenFuzzer, ARMSIMDOutputValues};
pub use config::{
    TestCompilation, GenCodeFuzzMode, parse_fuzz_mode, derive_thread_seed, get_hex_hash_of_bytes,
    FailureKind, failure_archive_files,
};
pub use arm_parse::{
    get_disallowed_intrinsics, name_on_list, parse_arm_intrinsics_json, build_arm_catalog,
    ArmJsonRec, ArmPrepRec, arm_doc_of, spec_arm_rec_result, spec_arm_parse_recs,
    arm_intrinsics_v,
};
pub use rand::Rand;
pub use x86_types::{
    X86BaseType, X86SIMDEType, X86SIMDType, X86SIMDIntrinsic, X86SIMDIntrinsicV,
    is_simd_etype_floating_point, is_simd_type_floating_point, base_type_to_cpp_type_name,
    simd_type_to_cpp_type_name, get_underlying_simd_type,
};

verus! {

/// Round `val` up to the next multiple of `alignment`.
pub fn align_usize(val: usize, alignment: usize) -> (r: usize)
    requires
        alignment >= 1,
        val + alignment <= usize::MAX,
    ensures
        r == spec_align(val as nat, alignment as nat),
{
    let q = (val + alignment - 1) / alignment;
    proof {
        lemma_align_properties(val as nat, alignment as nat);
        assert(q * alignment == spec_align(val as nat, alignment as nat));
    }
    q * alignment
}

/// What it means to round `val` up to a multiple of `alignment`.
pub open spec fn spec_align(val: nat, alignment: nat) -> nat
    recommends
        alignment >= 1,
{
    ((((val + alignment - 1) as int / alignment as int) * alignment as int)) as nat
}

/// Alignment rounds up to a multiple, moves by less than `alignment`,
/// and never moves a value that is already aligned.
pub proof fn lemma_align_properties(val: nat, alignment: nat)
    requires
        alignment >= 1,
    ensures
        spec_align(val, alignment) % alignment == 0,
        val <= spec_align(val, alignment) < val + alignment,
        val % alignment == 0 ==> spec_align(val, alignment) == val,
{
    let v = val as int;
    let a = alignment as int;
    let q = (v + a - 1) / a;
    assert(spec_align(val, alignment) == q * a);
    assert(q * a % a == 0) by (nonlinear_arith)
        requires
            a >= 1,
    ;
    assert(v + a - 1 == q * a + ((v + a - 1) % a) && 0 <= (v + a - 1) % a < a) by (nonlinear_arith)
        requires
            a >= 1,
            q == (v + a - 1) / a,
    ;
    if val % alignment == 0 {
        let qv = v / a;
        assert(v == qv * a) by (nonlinear_arith)
            requires
                a >= 1,
                qv == v / a,
                v % a == 0,
                v >= 0,
        ;
        assert((qv * a + a - 1) / a == qv) by (nonlinear_arith)
            requires
                a >= 1,
                qv >= 0,
        ;
    }
}

} // verus!
