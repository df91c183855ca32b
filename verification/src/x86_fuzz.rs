//! The x86 SIMD flavor worker: per-thread state, graph generation, emission,
//! input layout, and output comparison.  Executing the compiled page and
//! drawing the floating-point input slots live in the embedding; the float
//! and double buffers here carry raw IEEE-754 bit patterns.
use vstd::prelude::*;

use crate::rand::Rand;
use crate::aligned_slice::AlignedSlice;
use crate::gen_x86::{X86IntrinsicsByType, catalog_wf, usable_ending_entry, generate_codegen_ctx,
    produced_from_catalog};
use crate::graph_x86::{X86SIMDCodegenCtx, graph_wf, graph_complete, node_declared_type,
    no_tombstones, consts_referenced};
use crate::emit_x86::{generate_cpp_code_from_codegen_ctx, spec_emit_x86};
use crate::x86_types::X86SIMDType;
use crate::fmt_num::spec_dec_nat;
use crate::input_codec::{spec_ser_i32s, spec_ser_u32s, spec_ser_u64s};

verus! {

/// Buffers for x86 SIMD loads are 32-byte aligned.
pub const X86_SIMD_ALIGNMENT: usize = 32;

/// Metadata for a compiled x86 graph: how many int, float, and double input
/// slots the harness fills, and the return type tag.
#[derive(Debug, Clone, Copy, PartialEq, Eq, Structural)]
pub struct X86CodegenFuzzerCodeMetadata {
    pub num_i_vals: usize,
    pub num_f_vals: usize,
    pub num_d_vals: usize,
    pub return_type: X86SIMDType,
}

/// What each worker thread starts from: its seed and the intrinsic catalog.
pub struct X86CodegenFuzzerThreadInput {
    pub thread_seed: u64,
    pub type_to_intrinsics_map: X86IntrinsicsByType,
}

/// The x86 worker state.
pub struct X86CodegenFuzzer {
    pub type_to_intrinsics_map: X86IntrinsicsByType,
    pub outer_rng: Rand,
}

/// One captured input: the integer slots, and the float and double slots as
/// raw bit patterns, all in 32-byte-aligned buffers.
#[derive(Clone, Debug)]
pub struct X86CodeFuzzerInputValues {
    pub i_vals: AlignedSlice<i32, 32>,
    pub f_bits: AlignedSlice<u32, 32>,
    pub d_bits: AlignedSlice<u64, 32>,
}

/// The serialized form of a captured x86 input.
pub open spec fn spec_serialize_x86_input(iv: X86CodeFuzzerInputValues) -> Seq<char> {
    spec_dec_nat(iv.i_vals@.len()) + "\n"@ + spec_ser_i32s(iv.i_vals@) + spec_dec_nat(
        iv.f_bits@.len(),
    ) + "\n"@ + spec_ser_u32s(iv.f_bits@) + spec_dec_nat(iv.d_bits@.len()) + "\n"@ + spec_ser_u64s(
        iv.d_bits@,
    )
}

impl X86CodeFuzzerInputValues {
    /// Serialize this input to its text form.
    pub fn write_to_str(&self) -> (r: String)
        ensures
            r@ =~= spec_serialize_x86_input(*self),
    {
        let mut s = crate::fmt_num::usize_to_dec(self.i_vals.len());
        s.append("\n");
        let ghost base_i = s@;
        let ghost ivals = self.i_vals@;
        proof {
            assert(ivals.skip(0) =~= ivals);
        }
        let mut k: usize = 0;
        while k < self.i_vals.len()
            invariant
                ivals == self.i_vals@,
                k <= ivals.len(),
                base_i + spec_ser_i32s(ivals) =~= s@ + spec_ser_i32s(ivals.skip(k as int)),
            decreases ivals.len() - k,
        {
            let d = crate::fmt_num::i32_to_dec(self.i_vals.get(k));
            s.append(d.as_str());
            s.append(" ");
            proof {
                assert(ivals.skip(k as int)[0] == ivals[k as int]);
                assert(ivals.skip(k as int).drop_first() =~= ivals.skip(k as int + 1));
                assert(spec_ser_i32s(ivals.skip(k as int)) =~= crate::fmt_num::spec_dec_int(
                    ivals[k as int] as int,
                ) + " "@ + spec_ser_i32s(ivals.skip(k as int + 1)));
                assert(base_i + spec_ser_i32s(ivals) =~= s@ + spec_ser_i32s(
                    ivals.skip(k as int + 1),
                ));
            }
            k = k + 1;
        }
        proof {
            assert(ivals.skip(ivals.len() as int) =~= Seq::<i32>::empty());
            assert(s@ =~= base_i + spec_ser_i32s(ivals));
        }
        let d1 = crate::fmt_num::usize_to_dec(self.f_bits.len());
        s.append(d1.as_str());
        s.append("\n");
        let ghost base_f = s@;
        let ghost fbits = self.f_bits@;
        proof {
            assert(fbits.skip(0) =~= fbits);
        }
        let mut k2: usize = 0;
        while k2 < self.f_bits.len()
            invariant
                fbits == self.f_bits@,
                k2 <= fbits.len(),
                base_f + spec_ser_u32s(fbits) =~= s@ + spec_ser_u32s(fbits.skip(k2 as int)),
            decreases fbits.len() - k2,
        {
            let d = crate::fmt_num::u32_to_dec(self.f_bits.get(k2));
            s.append(d.as_str());
            s.append(" ");
            proof {
                assert(fbits.skip(k2 as int)[0] == fbits[k2 as int]);
                assert(fbits.skip(k2 as int).drop_first() =~= fbits.skip(k2 as int + 1));
                assert(spec_ser_u32s(fbits.skip(k2 as int)) =~= spec_dec_nat(
                    fbits[k2 as int] as nat,
                ) + " "@ + spec_ser_u32s(fbits.skip(k2 as int + 1)));
                assert(base_f + spec_ser_u32s(fbits) =~= s@ + spec_ser_u32s(
                    fbits.skip(k2 as int + 1),
                ));
            }
            k2 = k2 + 1;
        }
        proof {
            assert(fbits.skip(fbits.len() as int) =~= Seq::<u32>::empty());
            assert(s@ =~= base_f + spec_ser_u32s(fbits));
        }
        let d2 = crate::fmt_num::usize_to_dec(self.d_bits.len());
        s.append(d2.as_str());
        s.append("\n");
        let ghost base_d = s@;
        let ghost dbits = self.d_bits@;
        proof {
            assert(dbits.skip(0) =~= dbits);
        }
        let mut k3: usize = 0;
        while k3 < self.d_bits.len()
            invariant
                dbits == self.d_bits@,
                k3 <= dbits.len(),
                base_d + spec_ser_u64s(dbits) =~= s@ + spec_ser_u64s(dbits.skip(k3 as int)),
            decreases dbits.len() - k3,
        {
            let d = crate::fmt_num::u64_to_dec(self.d_bits.get(k3));
            s.append(d.as_str());
            s.append(" ");
            proof {
                assert(dbits.skip(k3 as int)[0] == dbits[k3 as int]);
                assert(dbits.skip(k3 as int).drop_first() =~= dbits.skip(k3 as int + 1));
                assert(spec_ser_u64s(dbits.skip(k3 as int)) =~= spec_dec_nat(
                    dbits[k3 as int] as nat,
                ) + " "@ + spec_ser_u64s(dbits.skip(k3 as int + 1)));
                assert(base_d + spec_ser_u64s(dbits) =~= s@ + spec_ser_u64s(
                    dbits.skip(k3 as int + 1),
                ));
            }
            k3 = k3 + 1;
        }
        proof {
            assert(dbits.skip(dbits.len() as int) =~= Seq::<u64>::empty());
            assert(s@ =~= base_d + spec_ser_u64s(dbits));
        }
        s
    }
}

/// One observed output: the returned vector's bytes.
#[derive(Clone, Copy, Debug)]
pub enum X86SIMDOutputValues {
    SIMD128Bit([u8; 16]),
    SIMD256Bit([u8; 32]),
}

/// A catalog the generator can work from.
pub open spec fn x86_fuzzer_wf(f: X86CodegenFuzzer) -> bool {
    &&& catalog_wf(f.type_to_intrinsics_map@)
    &&& exists|i: int|
        0 <= i < f.type_to_intrinsics_map@.len() && usable_ending_entry(
            f.type_to_intrinsics_map@,
            i,
        )
}

impl X86CodegenFuzzer {
    /// A fresh worker from its thread input.
    pub fn new_fuzzer_state(input_data: X86CodegenFuzzerThreadInput) -> (r: X86CodegenFuzzer)
        ensures
            r.type_to_intrinsics_map@ == input_data.type_to_intrinsics_map@,
    {
        X86CodegenFuzzer {
            type_to_intrinsics_map: input_data.type_to_intrinsics_map,
            outer_rng: Rand::new(input_data.thread_seed),
        }
    }

    /// Build a new random graph from the catalog.
    pub fn generate_ctx(&mut self) -> (r: X86SIMDCodegenCtx)
        requires
            x86_fuzzer_wf(*old(self)),
        ensures
            x86_fuzzer_wf(*final(self)),
            final(self).type_to_intrinsics_map@ == old(self).type_to_intrinsics_map@,
            graph_wf(r@),
            graph_complete(r@),
            1 <= r@.nodes.len() <= 4622,
            node_declared_type(r@.nodes[0]) is Some,
            no_tombstones(r@),
            consts_referenced(r@),
            produced_from_catalog(old(self).type_to_intrinsics_map@, r@),
            r@.nodes[0] is Produced,
            exists|i: int|
                0 <= i < old(self).type_to_intrinsics_map@.len() && #[trigger] usable_ending_entry(
                    old(self).type_to_intrinsics_map@,
                    i,
                ) && node_declared_type(r@.nodes[0]) == Some(
                    old(self).type_to_intrinsics_map@[i].key,
                ),
    {
        let seed = self.outer_rng.rand_u64();
        let mut codegen_ctx = X86SIMDCodegenCtx::new(seed);
        generate_codegen_ctx(&mut codegen_ctx, &self.type_to_intrinsics_map);
        codegen_ctx
    }

    /// Emit the C++ for a graph along with its metadata.
    pub fn generate_cpp_code(&self, ctx: &X86SIMDCodegenCtx) -> (r: (
        String,
        X86CodegenFuzzerCodeMetadata,
    ))
        requires
            graph_wf(ctx@),
            ctx@.nodes.len() >= 1,
            ctx@.nodes.len() <= 0x0100_0000,
            node_declared_type(ctx@.nodes[0]) is Some,
        ensures
            ({
                let (code, ni, nf, nd) = spec_emit_x86(ctx@);
                &&& r.0@ =~= code
                &&& r.1.num_i_vals == ni
                &&& r.1.num_f_vals == nf
                &&& r.1.num_d_vals == nd
                &&& Some(r.1.return_type) == node_declared_type(ctx@.nodes[0])
            }),
    {
        let (cpp_code, num_i_vals, num_f_vals, num_d_vals) = generate_cpp_code_from_codegen_ctx(
            ctx,
        );
        let return_type = ctx.get_return_type();
        (
            cpp_code,
            X86CodegenFuzzerCodeMetadata { num_i_vals, num_f_vals, num_d_vals, return_type },
        )
    }

    /// Build a random input for a compiled graph: the integer slots are drawn
    /// here with the usual bias toward small values; the float and double
    /// slots are raw bit patterns the embedding draws, since only it can do
    /// floating-point arithmetic.
    pub fn generate_random_input(
        &mut self,
        code_meta: &X86CodegenFuzzerCodeMetadata,
        f_bits: &Vec<u32>,
        d_bits: &Vec<u64>,
    ) -> (r: X86CodeFuzzerInputValues)
        requires
            f_bits@.len() == code_meta.num_f_vals,
            d_bits@.len() == code_meta.num_d_vals,
            0 < vstd::layout::align_of::<i32>() <= 32,
            32 as nat % vstd::layout::align_of::<i32>() == 0,
            0 < vstd::layout::align_of::<u32>() <= 32,
            32 as nat % vstd::layout::align_of::<u32>() == 0,
            0 < vstd::layout::align_of::<u64>() <= 32,
            32 as nat % vstd::layout::align_of::<u64>() == 0,
        ensures
            r.i_vals@.len() == code_meta.num_i_vals,
            r.f_bits@ == f_bits@,
            r.d_bits@ == d_bits@,
    {
        let zero = 0i32;
        let mut i_vals = AlignedSlice::<i32, 32>::new(code_meta.num_i_vals, &zero);
        let n = i_vals.len();
        let mut k: usize = 0;
        while k < n
            invariant
                n == i_vals@.len(),
                k <= n,
            decreases n - k,
        {
            let rand_val = match self.outer_rng.rand() % 16 {
                0 => 0,
                1 => 1,
                2 => 2,
                3 => -1i32,
                _ => self.outer_rng.rand() as i32,
            };
            i_vals.set(k, rand_val);
            k = k + 1;
        }
        let fz = 0u32;
        let mut f_slice = AlignedSlice::<u32, 32>::new(f_bits.len(), &fz);
        let mut k2: usize = 0;
        while k2 < f_bits.len()
            invariant
                f_slice@.len() == f_bits@.len(),
                k2 <= f_bits@.len(),
                forall|j: int| 0 <= j < k2 ==> f_slice@[j] == f_bits@[j],
            decreases f_bits@.len() - k2,
        {
            f_slice.set(k2, f_bits[k2]);
            k2 = k2 + 1;
        }
        let dz = 0u64;
        let mut d_slice = AlignedSlice::<u64, 32>::new(d_bits.len(), &dz);
        let mut k3: usize = 0;
        while k3 < d_bits.len()
            invariant
                d_slice@.len() == d_bits@.len(),
                k3 <= d_bits@.len(),
                forall|j: int| 0 <= j < k3 ==> d_slice@[j] == d_bits@[j],
            decreases d_bits@.len() - k3,
        {
            d_slice.set(k3, d_bits[k3]);
            k3 = k3 + 1;
        }
        proof {
            assert(f_slice@ =~= f_bits@);
            assert(d_slice@ =~= d_bits@);
        }
        X86CodeFuzzerInputValues { i_vals, f_bits: f_slice, d_bits: d_slice }
    }

    /// Two outputs agree when they have the same width and the same bytes.
    pub fn are_outputs_the_same(
        &self,
        o1: &X86SIMDOutputValues,
        o2: &X86SIMDOutputValues,
    ) -> (r: bool)
        ensures
            r == (match (*o1, *o2) {
                (X86SIMDOutputValues::SIMD128Bit(a), X86SIMDOutputValues::SIMD128Bit(b)) => a@
                    == b@,
                (X86SIMDOutputValues::SIMD256Bit(a), X86SIMDOutputValues::SIMD256Bit(b)) => a@
                    == b@,
                _ => false,
            }),
    {
        match (o1, o2) {
            (X86SIMDOutputValues::SIMD128Bit(a), X86SIMDOutputValues::SIMD128Bit(b)) => {
                let mut k: usize = 0;
                while k < 16
                    invariant
                        k <= 16,
                        *o1 == X86SIMDOutputValues::SIMD128Bit(*a),
                        *o2 == X86SIMDOutputValues::SIMD128Bit(*b),
                        a@.len() == 16,
                        b@.len() == 16,
                        forall|j: int| 0 <= j < k ==> a@[j] == b@[j],
                    decreases 16 - k,
                {
                    if a[k] != b[k] {
                        proof {
                            assert(a@[k as int] != b@[k as int]);
                            assert(a@ != b@);
                        }
                        return false;
                    }
                    k = k + 1;
                }
                proof {
                    assert(a@ =~= b@);
                }
                true
            },
            (X86SIMDOutputValues::SIMD256Bit(a), X86SIMDOutputValues::SIMD256Bit(b)) => {
                let mut k: usize = 0;
                while k < 32
                    invariant
                        k <= 32,
                        *o1 == X86SIMDOutputValues::SIMD256Bit(*a),
                        *o2 == X86SIMDOutputValues::SIMD256Bit(*b),
                        a@.len() == 32,
                        b@.len() == 32,
                        forall|j: int| 0 <= j < k ==> a@[j] == b@[j],
                    decreases 32 - k,
                {
                    if a[k] != b[k] {
                        proof {
                            assert(a@[k as int] != b@[k as int]);
                            assert(a@ != b@);
                        }
                        return false;
                    }
                    k = k + 1;
                }
                proof {
                    assert(a@ =~= b@);
                }
                true
            },
            _ => false,
        }
    }

    /// Serialize a captured input.
    pub fn save_input_to_string(&self, input: &X86CodeFuzzerInputValues) -> (r: String)
        ensures
            r@ =~= spec_serialize_x86_input(*input),
    {
        input.write_to_str()
    }

    /// How many random inputs each compiled graph is tried on.
    pub fn num_inputs_per_codegen(&self) -> (r: u32)
        ensures
            r == 1000,
    {
        1000
    }
}

} // verus!
