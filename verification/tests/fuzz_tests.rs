use codegen_fuzz::{
    u64_to_dec, i32_to_dec, i64_to_dec, Rand, parse_arm_simd_type, ARMSIMDType, ARMBaseType,
    arm_simd_type_to_cpp_type_name, arm_simd_type_size_bytes, arm_simd_type_to_ld_func,
    encode_return_type, decode_return_type, ARMCodegenFuzzerCodeMetadata, save_meta_to_string,
    read_meta_from_string, ARMCodeFuzzerInputValues, get_hex_hash_of_bytes, X86SIMDType,
    X86SIMDEType, X86SIMDCodegenCtx, X86SIMDCodegenNode, X86SIMDCodegenIntrinsic,
    X86SIMDIntrinsic, X86TypeBucket, generate_cpp_code_from_codegen_ctx, minimize_gen_x86_code,
    LoopCodegenCtx, AsmCodegenCtx, SectionRec, SymbolRec, RelocRec, compose_image, ExecPage,
    parse_fuzz_mode, GenCodeFuzzMode, failure_archive_files, FailureKind,
    parse_arm_intrinsics_json, build_arm_catalog, ARMCodegenFuzzerThreadInput, ARMCodegenFuzzer,
    ARMSIMDCodegenNode, get_disallowed_intrinsics, LoopFuzzerThreadInput, LoopFuzzer,
    LoopCodegenOp, derive_thread_seed, parse_etype_from_str, parse_type_from_str,
    x86_cpuid_valid, x86_name_disallowed, parse_intel_intrinsics_xml, build_x86_catalog,
    find_usable_ending_entry, X86BaseType,
};

#[test]
fn test_aligned_slice_01() {
    codegen_fuzz::test_aligned_slice_with_alignment::<4>();
}

#[test]
fn test_aligned_slice_02() {
    codegen_fuzz::test_aligned_slice_with_alignment::<8>();
}

#[test]
fn test_aligned_slice_03() {
    codegen_fuzz::test_aligned_slice_with_alignment::<16>();
}

#[test]
fn test_aligned_slice_04() {
    codegen_fuzz::test_aligned_slice_with_alignment::<32>();
}

#[test]
fn test_decimal_rendering() {
    assert_eq!(u64_to_dec(0), "0");
    assert_eq!(u64_to_dec(12345), "12345");
    assert_eq!(u64_to_dec(18446744073709551615), "18446744073709551615");
    assert_eq!(i32_to_dec(-7), "-7");
    assert_eq!(i64_to_dec(-9223372036854775808), "-9223372036854775808");
}

#[test]
fn test_rand_deterministic() {
    let mut a = Rand::new(42);
    let mut b = Rand::new(42);
    for _ in 0..10 {
        assert_eq!(a.rand(), b.rand());
    }
    let mut c = Rand::new(43);
    let mut d = Rand::new(42);
    // Different seeds give a different first draw here.
    assert_ne!(c.rand(), d.rand());
}

#[test]
fn test_parse_arm_simd_type_names() {
    assert_eq!(
        parse_arm_simd_type("int8x16_t"),
        Some(ARMSIMDType::SIMD(ARMBaseType::Int8, 16))
    );
    assert_eq!(
        parse_arm_simd_type("float32x4x2_t"),
        Some(ARMSIMDType::SIMDArr(ARMBaseType::Float32, 4, 2))
    );
    assert_eq!(
        parse_arm_simd_type("uint64_t"),
        Some(ARMSIMDType::Primitive(ARMBaseType::UInt64))
    );
    assert_eq!(parse_arm_simd_type("not_a_type"), None);
}

#[test]
fn test_arm_type_names_and_sizes() {
    assert_eq!(
        arm_simd_type_to_cpp_type_name(ARMSIMDType::SIMD(ARMBaseType::Int8, 16)),
        "int8x16_t"
    );
    assert_eq!(
        arm_simd_type_to_cpp_type_name(ARMSIMDType::SIMDArr(ARMBaseType::UInt16, 8, 3)),
        "uint16x8x3_t"
    );
    assert_eq!(
        arm_simd_type_size_bytes(ARMSIMDType::SIMD(ARMBaseType::Int32, 4)),
        16
    );
    assert_eq!(
        arm_simd_type_to_ld_func(ARMSIMDType::SIMD(ARMBaseType::Int32, 4)),
        "vld1q_s32"
    );
    assert_eq!(
        arm_simd_type_to_ld_func(ARMSIMDType::SIMD(ARMBaseType::UInt8, 8)),
        "vld1_u8"
    );
}

#[test]
fn test_return_type_code_roundtrip() {
    // A vector of four 32-bit signed lanes: family 0, log2 width 5, count code 3.
    let t = ARMSIMDType::SIMD(ARMBaseType::Int32, 4);
    let code = encode_return_type(t);
    assert_eq!(code, 0 | (5 << 2) | (3 << 5));
    assert_eq!(decode_return_type(code), Some(t));
    let t2 = ARMSIMDType::SIMDArr(ARMBaseType::UInt8, 16, 4);
    assert_eq!(decode_return_type(encode_return_type(t2)), Some(t2));
    let t3 = ARMSIMDType::Primitive(ARMBaseType::Poly64);
    assert_eq!(decode_return_type(encode_return_type(t3)), Some(t3));
}

#[test]
fn test_meta_roundtrip() {
    let meta = ARMCodegenFuzzerCodeMetadata {
        num_i_vals: 3,
        num_f_vals: 0,
        num_d_vals: 2,
        return_type: ARMSIMDType::SIMD(ARMBaseType::Int32, 4),
    };
    let s = save_meta_to_string(&meta);
    assert_eq!(s, "3 0 2 116");
    assert_eq!(read_meta_from_string(&s), Some(meta));
    assert_eq!(read_meta_from_string("not a meta line"), None);
}

#[test]
fn test_input_roundtrip_format() {
    // The on-disk shape: the integer count, its values, a newline, then the
    // float and double sections.
    let input = ARMCodeFuzzerInputValues { i_vals: vec![5], f_bits: vec![], d_bits: vec![] };
    assert_eq!(codegen_fuzz::save_input_to_string(&input), "1\n5 \n0\n0\n");
}

#[test]
fn test_input_roundtrip() {
    let input = ARMCodeFuzzerInputValues {
        i_vals: vec![1, -2, 3, 2147483647, -2147483648],
        f_bits: vec![0, 0x3f800000, 0xffffffff],
        d_bits: vec![0x3ff0000000000000, 0],
    };
    let s = codegen_fuzz::save_input_to_string(&input);
    let back = codegen_fuzz::read_input_from_string(&s).expect("round trip");
    assert_eq!(back, input);
}

#[test]
fn test_input_roundtrip_empty() {
    let input = ARMCodeFuzzerInputValues { i_vals: vec![], f_bits: vec![], d_bits: vec![] };
    let s = codegen_fuzz::save_input_to_string(&input);
    assert_eq!(s, "0\n\n0\n0\n");
    let back = codegen_fuzz::read_input_from_string(&s).expect("round trip");
    assert_eq!(back, input);
}

#[test]
fn test_hex_hash() {
    let h = get_hex_hash_of_bytes(b"");
    assert_eq!(
        h,
        "e3b0c44298fc1c149afbf4c8996fb92427ae41e4649b934ca495991b7852b855"
    );
}

fn two_node_x86_graph() -> X86SIMDCodegenCtx {
    let ty = X86SIMDType::M128i(X86SIMDEType::Int32);
    let mut ctx = X86SIMDCodegenCtx::new(7);
    ctx.intrinsics_sequence = vec![
        X86SIMDCodegenNode::Produced(X86SIMDCodegenIntrinsic {
            intrinsic: X86SIMDIntrinsic {
                intrinsic_name: "_mm_add_epi32".to_string(),
                return_type: ty,
                param_types: vec![ty, ty],
            },
            references: vec![1, 1],
        }),
        X86SIMDCodegenNode::Entry(ty),
    ];
    ctx.type_to_ref_idx = vec![X86TypeBucket { key: ty, indices: vec![0, 1] }];
    ctx
}

#[test]
fn test_x86_emit_add_graph() {
    // The seed graph with one add over one entry read twice: the entry loads
    // sixteen aligned bytes from the int buffer, so the metadata asks for
    // four int slots and nothing else.
    let ctx = two_node_x86_graph();
    let (code, ni, nf, nd) = generate_cpp_code_from_codegen_ctx(&ctx);
    assert_eq!((ni, nf, nd), (4, 0, 0));
    assert!(code.contains("#include <immintrin.h>"));
    assert!(code.contains(
        "extern \"C\" __m128i do_stuff(const int* iVals, const float* fVals, const double* dVals);\n"
    ));
    assert!(code.contains("\t__m128i var_1 = _mm_load_si128((const __m128i*)&iVals[0]);\n"));
    assert!(code.contains("\t__m128i var_0 = _mm_add_epi32(var_1, var_1);\n"));
    assert!(code.ends_with("\treturn var_0;\n}\n\n"));
}

#[test]
fn test_x86_minimizer_preserves_failure() {
    // A graph with one poisonous node among removable ones; the predicate is
    // that the emitted code still calls the poisonous intrinsic.  The
    // minimizer must keep the failure reproducing and never grow the graph.
    let ty = X86SIMDType::M128i(X86SIMDEType::Int32);
    let intr = |name: &str, refs: Vec<usize>| {
        X86SIMDCodegenNode::Produced(X86SIMDCodegenIntrinsic {
            intrinsic: X86SIMDIntrinsic {
                intrinsic_name: name.to_string(),
                return_type: ty,
                param_types: refs.iter().map(|_| ty).collect(),
            },
            references: refs,
        })
    };
    let mut ctx = X86SIMDCodegenCtx::new(7);
    ctx.intrinsics_sequence = vec![
        intr("_mm_add_epi32", vec![1, 2]),
        intr("_mm_poison_epi32", vec![2, 3]),
        intr("_mm_sub_epi32", vec![3, 3]),
        X86SIMDCodegenNode::Entry(ty),
    ];
    ctx.type_to_ref_idx = vec![X86TypeBucket { key: ty, indices: vec![0, 1, 2, 3] }];
    let reduced = minimize_gen_x86_code(&ctx, |c: &X86SIMDCodegenCtx| {
        let (code, _, _, _) = generate_cpp_code_from_codegen_ctx(c);
        code.contains("_mm_poison_epi32")
    });
    let (code, _, _, _) = generate_cpp_code_from_codegen_ctx(&reduced);
    assert!(code.contains("_mm_poison_epi32"));
    assert_eq!(reduced.intrinsics_sequence.len(), ctx.intrinsics_sequence.len());
    // The subtraction node fed only by the entry is removable.
    assert!(!code.contains("_mm_sub_epi32"));
}

#[test]
fn test_loop_emit_shape() {
    let ctx = LoopCodegenCtx::new(11);
    let code = ctx.generate_cpp_code();
    assert!(code.starts_with(
        "extern \"C\" void do_stuff(const int* __restrict inputs, int* __restrict outputs, int count) {\n"
    ));
    assert!(code.contains("\tfor (int i = 0; i < count - 49; i+= 50) {\n"));
    assert!(code.contains("\t\tunsigned int in_0 = inputs[i + 0];\n"));
    assert!(code.contains("\t\toutputs[i + 1] += r49;\n"));
    assert!(code.ends_with("\t}\n}\n"));
}

#[test]
fn test_asm_emit_shape() {
    let ctx = AsmCodegenCtx::new(5);
    let code = ctx.generate_cpp_code();
    assert!(code.starts_with(
        "extern \"C\" void do_stuff(const unsigned long long* __restrict inputs, unsigned long long* __restrict outputs, int count) {\n"
    ));
    assert!(code.ends_with("\t}\n}\n"));
}

fn call_section(name: &str, index: usize, data: Vec<u8>) -> SectionRec {
    SectionRec { index, name: name.to_string(), size: data.len() as u64, align: 1, data }
}

#[test]
fn test_loader_pc_relative_call() {
    // A call from the text section to a function in a secondary section: the
    // patched site must hold the little-endian distance from the site to the
    // target, plus the addend.
    let sections = vec![
        call_section(".text", 0, vec![0xE8, 0, 0, 0, 0]),
        call_section(".text.helper", 1, vec![0xC3]),
    ];
    let symbols = vec![
        SymbolRec { name: "do_stuff".to_string(), address: 0, section_index: Some(0) },
        SymbolRec { name: "helper".to_string(), address: 0, section_index: Some(1) },
    ];
    let relocs = vec![RelocRec {
        addr: 1,
        is_relative: true,
        elf_code: None,
        generic_encoding: true,
        aarch64_call_encoding: false,
        size_bits: 32,
        addend: -4,
        has_implicit_addend: false,
        target_symbol: Some(1),
    }];
    let page = compose_image(&sections, &symbols, &relocs, "do_stuff").expect("image");
    assert_eq!(page.get_func_offset(), 0);
    let bytes = page.get_bytes();
    // Target is at offset 5; the site is at offset 1; 5 - 1 - 4 = 0.
    assert_eq!(&bytes[1..5], &[0, 0, 0, 0]);
    assert_eq!(bytes[0], 0xE8);
    assert_eq!(bytes[5], 0xC3);
}

#[test]
fn test_loader_stub_substitution() {
    // A reference to the stack-probe helper: the loader appends its inline
    // replacement and patches the call site to reach it.
    let sections = vec![call_section(".text", 0, vec![0xE8, 0, 0, 0, 0, 0xC3])];
    let symbols = vec![
        SymbolRec { name: "do_stuff".to_string(), address: 0, section_index: Some(0) },
        SymbolRec { name: "__chkstk".to_string(), address: 0, section_index: None },
    ];
    let relocs = vec![RelocRec {
        addr: 1,
        is_relative: true,
        elf_code: None,
        generic_encoding: true,
        aarch64_call_encoding: false,
        size_bits: 32,
        addend: -4,
        has_implicit_addend: false,
        target_symbol: Some(1),
    }];
    let page = compose_image(&sections, &symbols, &relocs, "do_stuff").expect("image");
    let bytes = page.get_bytes();
    // The stub begins right after the six text bytes; 6 - 1 - 4 = 1.
    assert_eq!(&bytes[1..5], &[1, 0, 0, 0]);
    // The stub's first instruction is `sub rsp, 10h`.
    assert_eq!(&bytes[6..10], &[0x48, 0x83, 0xEC, 0x10]);
    // No external call remains: the patched site reaches the stub offset.
    assert_eq!(page.code_size, 6 + 78);
}

#[test]
fn test_loader_rejects_unknown_relocation() {
    let sections = vec![call_section(".text", 0, vec![0, 0, 0, 0])];
    let symbols = vec![SymbolRec {
        name: "do_stuff".to_string(),
        address: 0,
        section_index: Some(0),
    }];
    let relocs = vec![RelocRec {
        addr: 0,
        is_relative: false,
        elf_code: Some(9999),
        generic_encoding: false,
        aarch64_call_encoding: false,
        size_bits: 32,
        addend: 0,
        has_implicit_addend: false,
        target_symbol: Some(0),
    }];
    assert!(compose_image(&sections, &symbols, &relocs, "do_stuff").is_none());
    assert!(compose_image(&sections, &symbols, &vec![], "missing").is_none());
}

#[test]
fn test_exec_page_fixups() {
    let mut page = ExecPage::new(1);
    page.load_with_code(&[0u8; 16], 0);
    page.fix_up_redirect(0, 32, 0x11223344, false);
    assert_eq!(&page.get_bytes()[0..4], &[0x44, 0x33, 0x22, 0x11]);
    // An implicit addend adds the bytes already at the site.
    page.fix_up_redirect(0, 32, 1, true);
    assert_eq!(&page.get_bytes()[0..4], &[0x45, 0x33, 0x22, 0x11]);
    page.fix_up_arm_ldr_offset_redirect(8, 1, 10);
    assert_eq!(&page.get_bytes()[8..12], &[0x00, 0x04, 0, 0]);
    page.fix_up_arm_add_immediate(12, 1);
    assert_eq!(&page.get_bytes()[12..16], &[0x00, 0x04, 0, 0]);
}

#[test]
fn test_parse_fuzz_mode_names() {
    assert_eq!(parse_fuzz_mode("crash"), Some(GenCodeFuzzMode::CrashOnly));
    assert_eq!(parse_fuzz_mode("crash+diff"), Some(GenCodeFuzzMode::CrashAndDiff));
    assert_eq!(parse_fuzz_mode("crash+optbait"), Some(GenCodeFuzzMode::CrashAndOptBait));
    assert_eq!(parse_fuzz_mode("fuzz"), None);
}

#[test]
fn test_failure_archive_names() {
    let files = failure_archive_files(FailureKind::RuntimeDiff, "orig", "min", "input", "meta");
    assert_eq!(files.len(), 4);
    assert!(files[0].0.starts_with("fuzz_issues/runtime_diffs/"));
    assert!(files[0].0.ends_with("_orig.cpp"));
    assert!(files[1].0.ends_with("_min.cpp"));
    assert!(files[2].0.ends_with("_input.input"));
    assert!(files[3].0.ends_with("_min_meta.meta"));
    let files2 = failure_archive_files(FailureKind::CompilerFailure, "orig", "min", "", "");
    assert_eq!(files2.len(), 2);
    assert!(files2[0].0.starts_with("fuzz_issues/compiler_fails/"));
}

#[test]
fn test_arm_catalog_parse_and_generate() {
    // A two-intrinsic catalog: an add over 4x32-bit lanes and a shift by a
    // compile-time constant.
    let spec = r#"[
        {"SIMD_ISA": "Neon", "name": "vaddq_s32", "Architectures": ["v7", "A64"],
         "return_type": {"value": "int32x4_t"},
         "arguments": ["int32x4_t a", "int32x4_t b"]},
        {"SIMD_ISA": "Neon", "name": "vshrq_n_s32", "Architectures": ["A64"],
         "return_type": {"value": "int32x4_t"},
         "arguments": ["int32x4_t a", "const int n"],
         "Arguments_Preparation": {"n": {"minimum": 1, "maximum": 32}}},
        {"SIMD_ISA": "MVE", "name": "ignored", "Architectures": ["A64"],
         "return_type": {"value": "int32x4_t"}, "arguments": []}
    ]"#;
    let intrinsics = parse_arm_intrinsics_json(spec, &vec![]).expect("parse");
    assert_eq!(intrinsics.len(), 2);
    assert_eq!(intrinsics[0].intrinsic_name, "vaddq_s32");
    assert_eq!(
        intrinsics[1].param_types[1],
        ARMSIMDType::ConstantIntImmediate(1, 32)
    );
    let catalog = build_arm_catalog(&intrinsics);
    let input = ARMCodegenFuzzerThreadInput {
        thread_seed: 99,
        type_to_intrinsics_map: catalog,
        mode: GenCodeFuzzMode::CrashAndDiff,
        connect_addr: String::new(),
    };
    let mut fuzzer = ARMCodegenFuzzer::new_fuzzer_state(input);
    let ctx = fuzzer.generate_ctx();
    // Topological validity: every operand index points forward.
    for (ii, node) in ctx.intrinsics_sequence.iter().enumerate() {
        if let ARMSIMDCodegenNode::Produced(ci) = node {
            for r in ci.references.iter() {
                assert!(*r > ii);
                assert!(*r < ctx.intrinsics_sequence.len());
                assert!(!matches!(
                    ctx.intrinsics_sequence[*r],
                    ARMSIMDCodegenNode::NoOp | ARMSIMDCodegenNode::Pending(_)
                ));
            }
        }
        assert!(!matches!(node, ARMSIMDCodegenNode::Pending(_)));
    }
    assert!(!matches!(ctx.intrinsics_sequence[0], ARMSIMDCodegenNode::NoOp));
    // Reuse-map consistency: every bucket entry is live with that type.
    for bucket in ctx.type_to_ref_idx.iter() {
        for idx in bucket.indices.iter() {
            assert!(*idx < ctx.intrinsics_sequence.len());
            assert!(!matches!(ctx.intrinsics_sequence[*idx], ARMSIMDCodegenNode::NoOp));
        }
    }
    // Constant-range safety: every drawn constant lies in its range.
    for node in ctx.intrinsics_sequence.iter() {
        if let ARMSIMDCodegenNode::ConstantImmediate(mn, mx, v) = node {
            assert!(mn <= v && v <= mx);
        }
    }
    let (code, _meta) = fuzzer.generate_cpp_code(&ctx);
    assert!(code.starts_with("#include <arm_neon.h>\n"));
    assert!(code.contains("do_stuff"));
}

#[test]
fn test_disallowed_list_has_crc() {
    let list = get_disallowed_intrinsics();
    assert!(list.iter().any(|n| n == "__crc32b"));
    assert!(list.iter().any(|n| n == "vsha256hq_u32"));
    assert!(!list.iter().any(|n| n == "vaddq_s32"));
}

#[test]
fn test_loop_minimizer_shrinks() {
    let fuzzer_input = LoopFuzzerThreadInput { thread_seed: 5 };
    let mut fuzzer = LoopFuzzer::new_fuzzer_state(fuzzer_input);
    let ctx = fuzzer.generate_ctx();
    let total = ctx.nodes.len();
    // Keep only graphs that still contain at least one multiplication.
    let reduced = fuzzer
        .try_minimize(ctx, |_f: &LoopFuzzer, c: &LoopCodegenCtx| {
            c.nodes.iter().any(|n| matches!(n.op, LoopCodegenOp::Mul))
        })
        .expect("minimize");
    assert_eq!(reduced.nodes.len(), total);
    let live = reduced.nodes.iter().filter(|n| !matches!(n.op, LoopCodegenOp::NoOp)).count();
    assert!(live <= 1);
    assert!(reduced.nodes.iter().any(|n| matches!(n.op, LoopCodegenOp::Mul)));
}

#[test]
fn test_thread_seed_derivation() {
    assert_eq!(derive_thread_seed(0, 0), 937 * 241);
    assert_eq!(derive_thread_seed(1, 10), 938 * 241 + 10);
}

#[test]
fn test_x86_parse_etype() {
    assert_eq!(parse_etype_from_str("UI8"), Some(X86SIMDEType::UInt8));
    assert_eq!(parse_etype_from_str("FP64"), Some(X86SIMDEType::Float64));
    assert_eq!(parse_etype_from_str("MASK"), Some(X86SIMDEType::Mask));
    assert_eq!(parse_etype_from_str("bogus"), None);
}

#[test]
fn test_x86_parse_type_strings() {
    assert_eq!(
        parse_type_from_str("__m256i", Some("UI32"), None),
        Some(X86SIMDType::M256i(X86SIMDEType::UInt32))
    );
    assert_eq!(
        parse_type_from_str("const int", None, None),
        Some(X86SIMDType::Primitive(X86BaseType::Int32))
    );
    assert_eq!(
        parse_type_from_str("unsigned char", None, None),
        Some(X86SIMDType::Primitive(X86BaseType::UInt8))
    );
    assert_eq!(
        parse_type_from_str("int", None, Some("8")),
        Some(X86SIMDType::ConstantImmediate(X86BaseType::Int32, 8))
    );
    assert_eq!(parse_type_from_str("__m128i", None, None), None);
    assert_eq!(parse_type_from_str("struct foo", None, None), None);
}

#[test]
fn test_x86_cpuid_and_disallowed_lists() {
    assert!(x86_cpuid_valid("SSE4.1"));
    assert!(x86_cpuid_valid("AVX2"));
    assert!(!x86_cpuid_valid("MMX"));
    assert!(x86_name_disallowed("_mm_round_ss"));
    assert!(x86_name_disallowed("_mm256_undefined_si256"));
    assert!(!x86_name_disallowed("_mm256_add_epi32"));
}

#[test]
fn test_parse_intel_intrinsics_xml_and_catalog() {
    let xml = "<intrinsics_list>\
<intrinsic name=\"_mm256_add_epi32\">\
<CPUID>AVX2</CPUID>\
<return type=\"__m256i\" etype=\"SI32\"/>\
<parameter type=\"__m256i\" etype=\"SI32\" varname=\"a\"/>\
<parameter type=\"__m256i\" etype=\"SI32\" varname=\"b\"/>\
</intrinsic>\
<intrinsic name=\"_mm256_load_si256\">\
<CPUID>AVX</CPUID>\
<return type=\"__m256i\" etype=\"M256\"/>\
<parameter type=\"__m256i const *\" etype=\"M256\" varname=\"mem\"/>\
</intrinsic>\
<intrinsic name=\"_mm256_add_ps\">\
<CPUID>AVX</CPUID>\
<return type=\"__m256\" etype=\"FP32\"/>\
<parameter type=\"__m256\" etype=\"FP32\" varname=\"a\"/>\
<parameter type=\"__m256\" etype=\"FP32\" varname=\"b\"/>\
</intrinsic>\
</intrinsics_list>";
    let list = parse_intel_intrinsics_xml(xml).expect("catalog should parse");
    // The pointer-typed load and the floating-point add are filtered out.
    assert_eq!(list.len(), 1);
    assert_eq!(list[0].intrinsic_name, "_mm256_add_epi32");
    assert_eq!(list[0].return_type, X86SIMDType::M256i(X86SIMDEType::Int32));
    assert_eq!(list[0].param_types.len(), 2);
    let catalog = build_x86_catalog(&list);
    assert_eq!(catalog.entries.len(), 1);
    assert!(find_usable_ending_entry(&catalog));
}
