//! The ARM NEON flavor worker: per-thread state, graph generation, emission,
//! input layout, and output comparison.  Executing the compiled page (or
//! sending it to a remote device) lives in the embedding.
use vstd::prelude::*;

use crate::rand::Rand;
use crate::gen_arm::{
    ARMIntrinsicsByType, catalog_wf, usable_ending_entry, list_covered, generate_arm_codegen_ctx,
    produced_from_catalog,
};
use crate::graph_arm::{
    ARMSIMDCodegenCtx, graph_wf, graph_complete, node_declared_type, entry_types_ok,
    no_tombstones, consts_referenced,
};
use crate::emit_arm::{generate_cpp_code_from_arm_codegen_ctx, spec_emit_arm};
use crate::arm_types::ARMSIMDType;
use crate::arm_codec::ARMCodegenFuzzerCodeMetadata;
use crate::input_codec::ARMCodeFuzzerInputValues;
use crate::config::GenCodeFuzzMode;

verus! {

/// What each worker thread starts from: its seed, the intrinsic catalog, the
/// fuzzing mode, and where a remote execution helper listens, if anywhere.
pub struct ARMCodegenFuzzerThreadInput {
    pub thread_seed: u64,
    pub type_to_intrinsics_map: ARMIntrinsicsByType,
    pub mode: GenCodeFuzzMode,
    pub connect_addr: String,
}

/// The ARM worker state.
pub struct ARMCodegenFuzzer {
    pub type_to_intrinsics_map: ARMIntrinsicsByType,
    pub all_intrinsic_return_types: Vec<ARMSIMDType>,
    pub outer_rng: Rand,
}

/// One observed output: up to 64 returned bytes and the valid length.
#[derive(Clone, Copy, Debug)]
pub struct ARMSIMDOutputValues {
    pub output_bytes: [u8; 64],
    pub output_len: usize,
}

/// A catalog plus return-type list the generator can work from.
pub open spec fn arm_fuzzer_wf(f: ARMCodegenFuzzer) -> bool {
    &&& catalog_wf(f.type_to_intrinsics_map@)
    &&& f.all_intrinsic_return_types@.len() > 0
    &&& list_covered(f.type_to_intrinsics_map@, f.all_intrinsic_return_types@)
}

impl ARMCodegenFuzzer {
    /// A fresh worker: the return-type list is the catalog's usable keys, in
    /// catalog order.
    pub fn new_fuzzer_state(input_data: ARMCodegenFuzzerThreadInput) -> (r: ARMCodegenFuzzer)
        requires
            catalog_wf(input_data.type_to_intrinsics_map@),
        ensures
            r.type_to_intrinsics_map@ == input_data.type_to_intrinsics_map@,
            catalog_wf(r.type_to_intrinsics_map@),
            r.all_intrinsic_return_types@.len() > 0 ==> arm_fuzzer_wf(r),
    {
        let ghost cat = input_data.type_to_intrinsics_map@;
        let mut all_intrinsic_return_types: Vec<ARMSIMDType> = Vec::new();
        let mut i: usize = 0;
        while i < input_data.type_to_intrinsics_map.entries.len()
            invariant
                cat == input_data.type_to_intrinsics_map@,
                i <= cat.len(),
                list_covered(cat, all_intrinsic_return_types@),
            decreases cat.len() - i,
        {
            let e = &input_data.type_to_intrinsics_map.entries[i];
            let is_const = match e.key {
                ARMSIMDType::ConstantIntImmediate(_, _) => true,
                _ => false,
            };
            if !is_const && e.intrinsics.len() > 0 && crate::arm_types::arm_type_emit_ok_exec(
                e.key,
            ) {
                let ghost prev = all_intrinsic_return_types@;
                all_intrinsic_return_types.push(e.key);
                proof {
                    assert(usable_ending_entry(cat, i as int));
                    assert forall|k: int|
                        0 <= k < all_intrinsic_return_types@.len() implies exists|j: int|
                        0 <= j < cat.len() && usable_ending_entry(cat, j) && (
                        #[trigger] all_intrinsic_return_types@[k]) == cat[j].key by {
                        if k < prev.len() {
                            assert(all_intrinsic_return_types@[k] == prev[k]);
                        } else {
                            assert(all_intrinsic_return_types@[k] == cat[i as int].key);
                        }
                    }
                }
            }
            i = i + 1;
        }
        ARMCodegenFuzzer {
            type_to_intrinsics_map: input_data.type_to_intrinsics_map,
            all_intrinsic_return_types,
            outer_rng: Rand::new(input_data.thread_seed),
        }
    }

    /// Build a new random graph from the catalog.
    pub fn generate_ctx(&mut self) -> (r: ARMSIMDCodegenCtx)
        requires
            arm_fuzzer_wf(*old(self)),
        ensures
            arm_fuzzer_wf(*final(self)),
            final(self).type_to_intrinsics_map@ == old(self).type_to_intrinsics_map@,
            final(self).all_intrinsic_return_types@ == old(self).all_intrinsic_return_types@,
            graph_wf(r@),
            graph_complete(r@),
            entry_types_ok(r@),
            1 <= r@.nodes.len() <= 1322,
            node_declared_type(r@.nodes[0]) is Some,
            no_tombstones(r@),
            consts_referenced(r@),
            produced_from_catalog(old(self).type_to_intrinsics_map@, r@),
            r@.nodes[0] is Produced,
            exists|i: int|
                0 <= i < old(self).type_to_intrinsics_map@.len() && #[trigger] usable_ending_entry(
                    old(self).type_to_intrinsics_map@,
                    i,
                ) && node_declared_type(r@.nodes[0]) == Some(
                    old(self).type_to_intrinsics_map@[i].key,
                ),
    {
        let seed = self.outer_rng.rand_u64();
        let mut codegen_ctx = ARMSIMDCodegenCtx::new(seed);
        generate_arm_codegen_ctx(
            &mut codegen_ctx,
            &self.type_to_intrinsics_map,
            &self.all_intrinsic_return_types,
        );
        codegen_ctx
    }

    /// Emit the C++ for a graph along with its metadata.
    pub fn generate_cpp_code(&self, ctx: &ARMSIMDCodegenCtx) -> (r: (
        String,
        ARMCodegenFuzzerCodeMetadata,
    ))
        requires
            graph_wf(ctx@),
            entry_types_ok(ctx@),
            ctx@.nodes.len() >= 1,
            ctx@.nodes.len() <= 0x0010_0000,
            node_declared_type(ctx@.nodes[0]) is Some,
        ensures
            ({
                let (code, ni, nf, nd) = spec_emit_arm(ctx@);
                &&& r.0@ =~= code
                &&& r.1.num_i_vals == ni
                &&& r.1.num_f_vals == nf
                &&& r.1.num_d_vals == nd
                &&& Some(r.1.return_type) == node_declared_type(ctx@.nodes[0])
            }),
    {
        let (cpp_code, num_i_vals, num_f_vals, num_d_vals) = generate_cpp_code_from_arm_codegen_ctx(
            ctx,
        );
        let return_type = ctx.get_return_type();
        (
            cpp_code,
            ARMCodegenFuzzerCodeMetadata { num_i_vals, num_f_vals, num_d_vals, return_type },
        )
    }

    /// Build a random input for a compiled graph: the integer slots are drawn
    /// here with the usual bias; the float and double slots are raw bit
    /// patterns the embedding draws.
    pub fn generate_random_input(
        &mut self,
        code_meta: &ARMCodegenFuzzerCodeMetadata,
        f_bits: Vec<u32>,
        d_bits: Vec<u64>,
    ) -> (r: ARMCodeFuzzerInputValues)
        requires
            f_bits@.len() == code_meta.num_f_vals,
            d_bits@.len() == code_meta.num_d_vals,
        ensures
            r.i_vals@.len() == code_meta.num_i_vals,
            r.f_bits@ == f_bits@,
            r.d_bits@ == d_bits@,
    {
        let mut i_vals: Vec<i32> = Vec::new();
        let n = code_meta.num_i_vals;
        let mut k: usize = 0;
        while k < n
            invariant
                k <= n,
                i_vals@.len() == k as int,
            decreases n - k,
        {
            let rand_val = match self.outer_rng.rand() % 16 {
                0 => 0,
                1 => 1,
                2 => 2,
                3 => -1i32,
                _ => self.outer_rng.rand() as i32,
            };
            i_vals.push(rand_val);
            k = k + 1;
        }
        ARMCodeFuzzerInputValues { i_vals, f_bits, d_bits }
    }

    /// Two outputs agree when they have the same valid length and the same
    /// bytes over it.
    pub fn are_outputs_the_same(
        &self,
        o1: &ARMSIMDOutputValues,
        o2: &ARMSIMDOutputValues,
    ) -> (r: bool)
        requires
            o1.output_len <= 64,
            o2.output_len <= 64,
        ensures
            r == (o1.output_len == o2.output_len && o1.output_bytes@.subrange(
                0,
                o1.output_len as int,
            ) == o2.output_bytes@.subrange(0, o2.output_len as int)),
    {
        if o1.output_len != o2.output_len {
            return false;
        }
        let mut k: usize = 0;
        while k < o1.output_len
            invariant
                o1.output_len == o2.output_len <= 64,
                o1.output_bytes@.len() == 64,
                o2.output_bytes@.len() == 64,
                k <= o1.output_len,
                forall|j: int| 0 <= j < k ==> o1.output_bytes@[j] == o2.output_bytes@[j],
            decreases o1.output_len - k,
        {
            if o1.output_bytes[k] != o2.output_bytes[k] {
                proof {
                    assert(o1.output_bytes@.subrange(0, o1.output_len as int)[k as int]
                        != o2.output_bytes@.subrange(0, o2.output_len as int)[k as int]);
                }
                return false;
            }
            k = k + 1;
        }
        proof {
            assert(o1.output_bytes@.subrange(0, o1.output_len as int) =~= o2.output_bytes@.subrange(
                0,
                o2.output_len as int,
            ));
        }
        true
    }

    /// Serialize a captured input.
    pub fn save_input_to_string(&self, input: &ARMCodeFuzzerInputValues) -> (r: String)
        ensures
            r@ =~= crate::input_codec::spec_serialize_input(
                input.i_vals@,
                input.f_bits@,
                input.d_bits@,
            ),
    {
        crate::input_codec::save_input_to_string(input)
    }

    /// Parse a captured input back.
    pub fn read_input_from_string(&self, serial: &str) -> (r: Option<ARMCodeFuzzerInputValues>)
        ensures
            match r {
                Some(iv) => crate::input_codec::spec_deserialize_input(serial@) == Some(
                    (iv.i_vals@, iv.f_bits@, iv.d_bits@),
                ),
                None => crate::input_codec::spec_deserialize_input(serial@) is None,
            },
    {
        crate::input_codec::read_input_from_string(serial)
    }

    /// Serialize code metadata.
    pub fn save_meta_to_string(&self, meta: &ARMCodegenFuzzerCodeMetadata) -> (r: String)
        requires
            crate::arm_codec::return_type_encodable(meta.return_type),
        ensures
            r@ =~= crate::arm_codec::spec_serialize_meta(*meta),
    {
        crate::arm_codec::save_meta_to_string(meta)
    }

    /// Parse code metadata back.
    pub fn read_meta_from_string(&self, serial: &str) -> (r: Option<ARMCodegenFuzzerCodeMetadata>)
        ensures
            r == crate::arm_codec::spec_deserialize_meta(serial@),
    {
        crate::arm_codec::read_meta_from_string(serial)
    }

    /// How many random inputs each compiled graph is tried on.
    pub fn num_inputs_per_codegen(&self) -> (r: u32)
        ensures
            r == 10000,
    {
        10000
    }
}

} // verus!
