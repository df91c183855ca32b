//! The x86 graph-to-C++ emitter.
//!
//! Nodes are emitted in reverse index order (sink last) so that every operand
//! identifier is declared before use.  Entry nodes read from the three input
//! buffers; the offsets they consume form the code metadata that sizes the
//! input generator.  The emitted text is pinned down exactly, character for
//! character, by the specification functions in this module.
use vstd::prelude::*;

use crate::fmt_num::{spec_dec_nat, spec_dec_int, usize_to_dec, u32_to_dec, i64_to_dec};
use crate::graph_x86::{
    X86SIMDCodegenCtx, X86NodeV, X86CtxV, graph_wf, graph_complete, node_declared_type,
};
use crate::x86_types::{
    X86BaseType, X86SIMDType, spec_base_type_cpp_name, spec_simd_type_cpp_name,
    base_type_to_cpp_type_name, simd_type_to_cpp_type_name,
};
use crate::{spec_align, align_usize, lemma_align_properties};

verus! {

/// Input buffers are laid out for 32-byte-aligned SIMD loads.
pub const SIMD_ALIGNMENT_BYTES: usize = 32;

/// The fixed prologue: warning pragma, the intrinsics header, and the
/// per-compiler spelling shims for a few cross-named intrinsics.
pub open spec fn spec_x86_preamble() -> Seq<char> {
    "#define _CRT_SECURE_NO_WARNINGS\n\n#include <immintrin.h>\n#if defined(_MSC_VER)\n#define _mm_cvtsi128_si64x _mm_cvtsi128_si64\n#define _mm_cvtsi64x_si128 _mm_cvtsi64_si128\n#elif defined(__clang__)\n#define _mm_cvtsi64x_si128 _mm_cvtsi64_si128\n#define _mm_cvtsi64x_sd _mm_cvtsi64_sd\n#define _mm_cvtsi128_si64x _mm_cvtsi128_si64\n#define _mm_cvtsd_si64x _mm_cvtsd_si64\n#define _mm_cvttsd_si64x _mm_cvttsd_si64\n#endif\n\n#if defined(_MSC_VER)\n__declspec(noinline)\n#elif defined(__clang__)\n__attribute__((noinline))\n#else\n#error \"Not supported compiler, need to add branch for no-inline attribute\"\n#endif\n"@
}

/// The emitted function's fixed signature around its return type: declared
/// `extern "C"` and then defined, taking the three input buffers.
pub open spec fn spec_x86_signature(ret_name: Seq<char>) -> Seq<char> {
    "extern \"C\" "@ + ret_name + " do_stuff(const int* iVals, const float* fVals, const double* dVals);\n"@
        + ret_name + " do_stuff(const int* iVals, const float* fVals, const double* dVals) {\n"@
}

/// The expression an entry node loads its value with, and the input-buffer
/// cursors after it: scalars take one element, vectors an aligned load.
pub open spec fn spec_entry_load(t: X86SIMDType, ni: nat, nf: nat, nd: nat) -> (Seq<
    char,
>, nat, nat, nat) {
    match t {
        X86SIMDType::Primitive(b) => match b {
            X86BaseType::Int8 => (
                "(char)(iVals["@ + spec_dec_nat(ni) + "])"@,
                ni + 1,
                nf,
                nd,
            ),
            X86BaseType::UInt8 => ("(unsigned char)(iVals["@ + spec_dec_nat(ni) + "])"@, ni + 1, nf, nd),
            X86BaseType::Int16 => ("(short)(iVals["@ + spec_dec_nat(ni) + "])"@, ni + 1, nf, nd),
            X86BaseType::UInt16 => ("(unsigned short)(iVals["@ + spec_dec_nat(ni) + "])"@, ni + 1, nf, nd),
            X86BaseType::Int32 => ("(int)(iVals["@ + spec_dec_nat(ni) + "])"@, ni + 1, nf, nd),
            X86BaseType::UInt32 => ("(unsigned int)(iVals["@ + spec_dec_nat(ni) + "])"@, ni + 1, nf, nd),
            X86BaseType::Int64 => ("(long long)(iVals["@ + spec_dec_nat(ni) + "])"@, ni + 1, nf, nd),
            X86BaseType::UInt64 => ("(unsigned long long)(iVals["@ + spec_dec_nat(ni) + "])"@, ni + 1, nf, nd),
            X86BaseType::Float32 => ("fVals["@ + spec_dec_nat(nf) + "]"@, ni, nf + 1, nd),
            X86BaseType::Float64 => ("dVals["@ + spec_dec_nat(nd) + "]"@, ni, nf, nd + 1),
            X86BaseType::Void => (Seq::empty(), ni, nf, nd),
        },
        X86SIMDType::M64(_) => {
            let start = spec_align(ni, 8);
            ("_mm_set1_pi32(iVals["@ + spec_dec_nat(start) + "])"@, start + 2, nf, nd)
        },
        X86SIMDType::M128(_) => {
            let start = spec_align(nf, 8);
            ("_mm_load_ps(&fVals["@ + spec_dec_nat(start) + "])"@, ni, start + 4, nd)
        },
        X86SIMDType::M128d(_) => {
            let start = spec_align(nd, 4);
            ("_mm_load_pd(&dVals["@ + spec_dec_nat(start) + "])"@, ni, nf, start + 2)
        },
        X86SIMDType::M128i(_) => {
            let start = spec_align(ni, 8);
            ("_mm_load_si128((const __m128i*)&iVals["@ + spec_dec_nat(start) + "])"@, start + 4, nf, nd)
        },
        X86SIMDType::M256(_) => {
            let start = spec_align(nf, 8);
            ("_mm256_load_ps(&fVals["@ + spec_dec_nat(start) + "])"@, ni, start + 8, nd)
        },
        X86SIMDType::M256d(_) => {
            let start = spec_align(nd, 4);
            ("_mm256_loadu_pd(&dVals["@ + spec_dec_nat(start) + "])"@, ni, nf, start + 4)
        },
        X86SIMDType::M256i(_) => {
            let start = spec_align(ni, 8);
            ("_mm256_loadu_si256((const __m256i*)&iVals["@ + spec_dec_nat(start) + "])"@, start + 8, nf, nd)
        },
        X86SIMDType::ConstantImmediate(_, _) => (Seq::empty(), ni, nf, nd),
    }
}

/// The text of one operand at a call site: a constant-immediate operand is
/// inlined as its literal value, every other operand by its identifier.
pub open spec fn spec_x86_arg(nodes: Seq<X86NodeV>, r: usize) -> Seq<char> {
    match nodes[r as int] {
        X86NodeV::ConstantImmediate(_, _, v) => spec_dec_nat(v as nat),
        _ => "var_"@ + spec_dec_nat(r as nat),
    }
}

/// The first `k` comma-separated operands of a call.
pub open spec fn spec_x86_args_upto(nodes: Seq<X86NodeV>, refs: Seq<usize>, k: int) -> Seq<char>
    decreases k,
{
    if k <= 0 {
        Seq::empty()
    } else {
        spec_x86_args_upto(nodes, refs, k - 1) + (if k - 1 > 0 {
            ", "@
        } else {
            Seq::<char>::empty()
        }) + spec_x86_arg(nodes, refs[k - 1])
    }
}

/// The line (possibly empty) one node contributes, with the buffer cursors it
/// leaves behind.
pub open spec fn spec_x86_node_code(nodes: Seq<X86NodeV>, ii: int, ni: nat, nf: nat, nd: nat) -> (
    Seq<char>,
    nat,
    nat,
    nat,
) {
    match nodes[ii] {
        X86NodeV::Immediate(b, v) => (
            "\t"@ + spec_base_type_cpp_name(b) + " var_"@ + spec_dec_nat(ii as nat) + " = "@
                + spec_dec_int(v as int) + ";\n"@,
            ni,
            nf,
            nd,
        ),
        X86NodeV::ConstantImmediate(_, _, _) => (Seq::empty(), ni, nf, nd),
        X86NodeV::Zero(t) => (
            "\t"@ + spec_simd_type_cpp_name(t) + " var_"@ + spec_dec_nat(ii as nat) + " = "@
                + "{};\n"@,
            ni,
            nf,
            nd,
        ),
        X86NodeV::Entry(t) => {
            let (expr, ni2, nf2, nd2) = spec_entry_load(t, ni, nf, nd);
            (
                "\t"@ + spec_simd_type_cpp_name(t) + " var_"@ + spec_dec_nat(ii as nat) + " = "@
                    + expr + ";\n"@,
                ni2,
                nf2,
                nd2,
            )
        },
        X86NodeV::Produced(ci) => {
            let args = spec_x86_args_upto(nodes, ci.references, ci.references.len() as int);
            if ci.intrinsic.return_type == X86SIMDType::Primitive(X86BaseType::Void) {
                ("\t"@ + ci.intrinsic.name + "("@ + args + ");\n"@, ni, nf, nd)
            } else {
                (
                    "\t"@ + spec_simd_type_cpp_name(ci.intrinsic.return_type) + " var_"@
                        + spec_dec_nat(ii as nat) + " = "@ + ci.intrinsic.name + "("@ + args
                        + ");\n"@,
                    ni,
                    nf,
                    nd,
                )
            }
        },
        X86NodeV::NoOp => (Seq::empty(), ni, nf, nd),
        X86NodeV::Pending(_) => (Seq::empty(), ni, nf, nd),
    }
}

/// The body text after the `p` highest-indexed nodes have been emitted, in
/// reverse index order, along with the cursors reached.
pub open spec fn spec_x86_body_prefix(nodes: Seq<X86NodeV>, p: int) -> (Seq<char>, nat, nat, nat)
    decreases p,
{
    if p <= 0 {
        (Seq::empty(), 0, 0, 0)
    } else {
        let (c1, ni1, nf1, nd1) = spec_x86_body_prefix(nodes, p - 1);
        let (cn, ni2, nf2, nd2) = spec_x86_node_code(nodes, nodes.len() - p, ni1, nf1, nd1);
        (c1 + cn, ni2, nf2, nd2)
    }
}

/// The complete emitted translation unit for a graph, and the number of int,
/// float, and double input slots its entry nodes consume.
pub open spec fn spec_emit_x86(c: X86CtxV) -> (Seq<char>, nat, nat, nat) {
    let ret_name = spec_simd_type_cpp_name(node_declared_type(c.nodes[0]).unwrap());
    let (body, ni, nf, nd) = spec_x86_body_prefix(c.nodes, c.nodes.len() as int);
    (
        spec_x86_preamble() + spec_x86_signature(ret_name) + body + "\treturn var_0;\n}\n\n"@,
        ni,
        nf,
        nd,
    )
}

} // verus!

verus! {

/// One node moves each cursor forward by at most 16 slots.
proof fn lemma_x86_node_counts(nodes: Seq<X86NodeV>, ii: int, ni: nat, nf: nat, nd: nat)
    ensures
        ({
            let (_, ni2, nf2, nd2) = spec_x86_node_code(nodes, ii, ni, nf, nd);
            ni <= ni2 <= ni + 16 && nf <= nf2 <= nf + 16 && nd <= nd2 <= nd + 16
        }),
{
    lemma_align_properties(ni, 8);
    lemma_align_properties(nf, 8);
    lemma_align_properties(nd, 4);
}

/// After `p` nodes every cursor is at most `16 * p`.
proof fn lemma_x86_prefix_counts(nodes: Seq<X86NodeV>, p: int)
    requires
        p >= 0,
    ensures
        ({
            let (_, ni, nf, nd) = spec_x86_body_prefix(nodes, p);
            ni <= 16 * p && nf <= 16 * p && nd <= 16 * p
        }),
    decreases p,
{
    if p > 0 {
        lemma_x86_prefix_counts(nodes, p - 1);
        let (_, ni1, nf1, nd1) = spec_x86_body_prefix(nodes, p - 1);
        lemma_x86_node_counts(nodes, nodes.len() - p, ni1, nf1, nd1);
    }
}

/// Append a declaration prefix: tab, the type, the variable, an equals sign.
fn emit_decl_prefix(cpp: &mut String, tname: &str, ii: usize)
    ensures
        final(cpp)@ =~= old(cpp)@ + "\t"@ + tname@ + " var_"@ + spec_dec_nat(ii as nat)
            + " = "@,
{
    cpp.append("\t");
    cpp.append(tname);
    cpp.append(" var_");
    let d = usize_to_dec(ii);
    cpp.append(d.as_str());
    cpp.append(" = ");
}

/// Append an entry node's load expression and advance the buffer cursors.
fn emit_entry_load(cpp: &mut String, t: X86SIMDType, ni: usize, nf: usize, nd: usize) -> (r: (
    usize,
    usize,
    usize,
))
    requires
        ni + 64 <= usize::MAX,
        nf + 64 <= usize::MAX,
        nd + 64 <= usize::MAX,
    ensures
        ({
            let (expr, ni2, nf2, nd2) = spec_entry_load(t, ni as nat, nf as nat, nd as nat);
            &&& final(cpp)@ =~= old(cpp)@ + expr
            &&& r.0 == ni2
            &&& r.1 == nf2
            &&& r.2 == nd2
        }),
{
    match t {
        X86SIMDType::Primitive(b) => {
            match b {
                X86BaseType::Int8 => {
                    cpp.append("(char)(iVals[");
                    let d = usize_to_dec(ni);
                    cpp.append(d.as_str());
                    cpp.append("])");
                    (ni + 1, nf, nd)
                },
                X86BaseType::UInt8 => {
                    cpp.append("(unsigned char)(iVals[");
                    let d = usize_to_dec(ni);
                    cpp.append(d.as_str());
                    cpp.append("])");
                    (ni + 1, nf, nd)
                },
                X86BaseType::Int16 => {
                    cpp.append("(short)(iVals[");
                    let d = usize_to_dec(ni);
                    cpp.append(d.as_str());
                    cpp.append("])");
                    (ni + 1, nf, nd)
                },
                X86BaseType::UInt16 => {
                    cpp.append("(unsigned short)(iVals[");
                    let d = usize_to_dec(ni);
                    cpp.append(d.as_str());
                    cpp.append("])");
                    (ni + 1, nf, nd)
                },
                X86BaseType::Int32 => {
                    cpp.append("(int)(iVals[");
                    let d = usize_to_dec(ni);
                    cpp.append(d.as_str());
                    cpp.append("])");
                    (ni + 1, nf, nd)
                },
                X86BaseType::UInt32 => {
                    cpp.append("(unsigned int)(iVals[");
                    let d = usize_to_dec(ni);
                    cpp.append(d.as_str());
                    cpp.append("])");
                    (ni + 1, nf, nd)
                },
                X86BaseType::Int64 => {
                    cpp.append("(long long)(iVals[");
                    let d = usize_to_dec(ni);
                    cpp.append(d.as_str());
                    cpp.append("])");
                    (ni + 1, nf, nd)
                },
                X86BaseType::UInt64 => {
                    cpp.append("(unsigned long long)(iVals[");
                    let d = usize_to_dec(ni);
                    cpp.append(d.as_str());
                    cpp.append("])");
                    (ni + 1, nf, nd)
                },
                X86BaseType::Float32 => {
                    cpp.append("fVals[");
                    let d = usize_to_dec(nf);
                    cpp.append(d.as_str());
                    cpp.append("]");
                    (ni, nf + 1, nd)
                },
                X86BaseType::Float64 => {
                    cpp.append("dVals[");
                    let d = usize_to_dec(nd);
                    cpp.append(d.as_str());
                    cpp.append("]");
                    (ni, nf, nd + 1)
                },
                X86BaseType::Void => (ni, nf, nd),
            }
        },
        X86SIMDType::M64(_) => {
            let start = align_usize(ni, 8);
            cpp.append("_mm_set1_pi32(iVals[");
            let d = usize_to_dec(start);
            cpp.append(d.as_str());
            cpp.append("])");
            proof {
                lemma_align_properties(ni as nat, 8);
            }
            (start + 2, nf, nd)
        },
        X86SIMDType::M128(_) => {
            let start = align_usize(nf, 8);
            cpp.append("_mm_load_ps(&fVals[");
            let d = usize_to_dec(start);
            cpp.append(d.as_str());
            cpp.append("])");
            proof {
                lemma_align_properties(nf as nat, 8);
            }
            (ni, start + 4, nd)
        },
        X86SIMDType::M128d(_) => {
            let start = align_usize(nd, 4);
            cpp.append("_mm_load_pd(&dVals[");
            let d = usize_to_dec(start);
            cpp.append(d.as_str());
            cpp.append("])");
            proof {
                lemma_align_properties(nd as nat, 4);
            }
            (ni, nf, start + 2)
        },
        X86SIMDType::M128i(_) => {
            let start = align_usize(ni, 8);
            cpp.append("_mm_load_si128((const __m128i*)&iVals[");
            let d = usize_to_dec(start);
            cpp.append(d.as_str());
            cpp.append("])");
            proof {
                lemma_align_properties(ni as nat, 8);
            }
            (start + 4, nf, nd)
        },
        X86SIMDType::M256(_) => {
            let start = align_usize(nf, 8);
            cpp.append("_mm256_load_ps(&fVals[");
            let d = usize_to_dec(start);
            cpp.append(d.as_str());
            cpp.append("])");
            proof {
                lemma_align_properties(nf as nat, 8);
            }
            (ni, start + 8, nd)
        },
        X86SIMDType::M256d(_) => {
            let start = align_usize(nd, 4);
            cpp.append("_mm256_loadu_pd(&dVals[");
            let d = usize_to_dec(start);
            cpp.append(d.as_str());
            cpp.append("])");
            proof {
                lemma_align_properties(nd as nat, 4);
            }
            (ni, nf, start + 4)
        },
        X86SIMDType::M256i(_) => {
            let start = align_usize(ni, 8);
            cpp.append("_mm256_loadu_si256((const __m256i*)&iVals[");
            let d = usize_to_dec(start);
            cpp.append(d.as_str());
            cpp.append("])");
            proof {
                lemma_align_properties(ni as nat, 8);
            }
            (start + 8, nf, nd)
        },
        X86SIMDType::ConstantImmediate(_, _) => (ni, nf, nd),
    }
}

} // verus!

verus! {

impl X86SIMDCodegenCtx {
    /// Append the comma-separated operand list of the produced node at `ii`.
    fn emit_args(&self, cpp: &mut String, ii: usize)
        requires
            graph_wf(self@),
            ii < self@.nodes.len(),
            self@.nodes[ii as int] is Produced,
        ensures
            ({
                let ci = self@.nodes[ii as int]->Produced_0;
                final(cpp)@ =~= old(cpp)@ + spec_x86_args_upto(
                    self@.nodes,
                    ci.references,
                    ci.references.len() as int,
                )
            }),
    {
        let ghost civ = self@.nodes[ii as int]->Produced_0;
        proof {
            assert(crate::graph_x86::node_wf(self@, ii as int));
        }
        let num_refs = match &self.intrinsics_sequence[ii] {
            crate::graph_x86::X86SIMDCodegenNode::Produced(ci) => ci.references.len(),
            _ => {
                proof {
                    assert(false);
                }
                0
            },
        };
        let mut k: usize = 0;
        while k < num_refs
            invariant
                graph_wf(self@),
                ii < self@.nodes.len(),
                self@.nodes[ii as int] is Produced,
                civ == self@.nodes[ii as int]->Produced_0,
                num_refs == civ.references.len(),
                k <= num_refs,
                cpp@ =~= old(cpp)@ + spec_x86_args_upto(self@.nodes, civ.references, k as int),
            decreases num_refs - k,
        {
            let r = match &self.intrinsics_sequence[ii] {
                crate::graph_x86::X86SIMDCodegenNode::Produced(ci) => ci.references[k],
                _ => {
                    proof {
                        assert(false);
                    }
                    0
                },
            };
            proof {
                assert(crate::graph_x86::node_wf(self@, ii as int));
                assert(crate::graph_x86::produced_node_wf(self@, ii as int));
                assert((r as int) < self@.nodes.len());
            }
            if k > 0 {
                cpp.append(", ");
            }
            match &self.intrinsics_sequence[r] {
                crate::graph_x86::X86SIMDCodegenNode::ConstantImmediate(_, _, v) => {
                    let d = u32_to_dec(*v);
                    cpp.append(d.as_str());
                },
                _ => {
                    cpp.append("var_");
                    let d = usize_to_dec(r);
                    cpp.append(d.as_str());
                },
            }
            k = k + 1;
            proof {
                assert(cpp@ =~= old(cpp)@ + spec_x86_args_upto(
                    self@.nodes,
                    civ.references,
                    k as int,
                ));
            }
        }
    }

    /// Append the code of the node at `ii`, threading the buffer cursors.
    fn emit_node(&self, cpp: &mut String, ii: usize, ni: usize, nf: usize, nd: usize) -> (r: (
        usize,
        usize,
        usize,
    ))
        requires
            graph_wf(self@),
            ii < self@.nodes.len(),
            ni + 64 <= usize::MAX,
            nf + 64 <= usize::MAX,
            nd + 64 <= usize::MAX,
        ensures
            ({
                let (code, ni2, nf2, nd2) = spec_x86_node_code(
                    self@.nodes,
                    ii as int,
                    ni as nat,
                    nf as nat,
                    nd as nat,
                );
                &&& final(cpp)@ =~= old(cpp)@ + code
                &&& r.0 == ni2
                &&& r.1 == nf2
                &&& r.2 == nd2
            }),
    {
        match &self.intrinsics_sequence[ii] {
            crate::graph_x86::X86SIMDCodegenNode::Immediate(b, v) => {
                emit_decl_prefix(cpp, base_type_to_cpp_type_name(*b), ii);
                let d = i64_to_dec(*v);
                cpp.append(d.as_str());
                cpp.append(";\n");
                (ni, nf, nd)
            },
            crate::graph_x86::X86SIMDCodegenNode::ConstantImmediate(_, _, _) => (ni, nf, nd),
            crate::graph_x86::X86SIMDCodegenNode::Zero(t) => {
                emit_decl_prefix(cpp, simd_type_to_cpp_type_name(*t), ii);
                cpp.append("{};\n");
                (ni, nf, nd)
            },
            crate::graph_x86::X86SIMDCodegenNode::Entry(t) => {
                emit_decl_prefix(cpp, simd_type_to_cpp_type_name(*t), ii);
                let counts = emit_entry_load(cpp, *t, ni, nf, nd);
                cpp.append(";\n");
                counts
            },
            crate::graph_x86::X86SIMDCodegenNode::Produced(ci) => {
                let is_void = ci.intrinsic.return_type == X86SIMDType::Primitive(
                    X86BaseType::Void,
                );
                if is_void {
                    cpp.append("\t");
                    cpp.append(ci.intrinsic.intrinsic_name.as_str());
                    cpp.append("(");
                } else {
                    emit_decl_prefix(
                        cpp,
                        simd_type_to_cpp_type_name(ci.intrinsic.return_type),
                        ii,
                    );
                    cpp.append(ci.intrinsic.intrinsic_name.as_str());
                    cpp.append("(");
                }
                self.emit_args(cpp, ii);
                cpp.append(");\n");
                (ni, nf, nd)
            },
            crate::graph_x86::X86SIMDCodegenNode::NoOp => (ni, nf, nd),
            crate::graph_x86::X86SIMDCodegenNode::Pending(_) => (ni, nf, nd),
        }
    }
}

/// Emit the whole translation unit for a graph: the fixed preamble, the
/// `do_stuff` signature for the graph's return type, each node in reverse
/// index order, and the return of the sink's variable.  Returns the source
/// and the number of int, float, and double input slots it consumes.
pub fn generate_cpp_code_from_codegen_ctx(ctx: &X86SIMDCodegenCtx) -> (r: (
    String,
    usize,
    usize,
    usize,
))
    requires
        graph_wf(ctx@),
        ctx@.nodes.len() >= 1,
        ctx@.nodes.len() <= 0x0100_0000,
        node_declared_type(ctx@.nodes[0]) is Some,
    ensures
        ({
            let (code, ni, nf, nd) = spec_emit_x86(ctx@);
            &&& r.0@ =~= code
            &&& r.1 == ni
            &&& r.2 == nf
            &&& r.3 == nd
        }),
{
    let ghost nodes = ctx@.nodes;
    let mut cpp_code = String::new();
    cpp_code.append(
        "#define _CRT_SECURE_NO_WARNINGS\n\n#include <immintrin.h>\n#if defined(_MSC_VER)\n#define _mm_cvtsi128_si64x _mm_cvtsi128_si64\n#define _mm_cvtsi64x_si128 _mm_cvtsi64_si128\n#elif defined(__clang__)\n#define _mm_cvtsi64x_si128 _mm_cvtsi64_si128\n#define _mm_cvtsi64x_sd _mm_cvtsi64_sd\n#define _mm_cvtsi128_si64x _mm_cvtsi128_si64\n#define _mm_cvtsd_si64x _mm_cvtsd_si64\n#define _mm_cvttsd_si64x _mm_cvttsd_si64\n#endif\n\n#if defined(_MSC_VER)\n__declspec(noinline)\n#elif defined(__clang__)\n__attribute__((noinline))\n#else\n#error \"Not supported compiler, need to add branch for no-inline attribute\"\n#endif\n",
    );
    let return_type = ctx.get_return_type();
    let return_type_name = simd_type_to_cpp_type_name(return_type);
    cpp_code.append("extern \"C\" ");
    cpp_code.append(return_type_name);
    cpp_code.append(" do_stuff(const int* iVals, const float* fVals, const double* dVals);\n");
    cpp_code.append(return_type_name);
    cpp_code.append(" do_stuff(const int* iVals, const float* fVals, const double* dVals) {\n");
    proof {
        assert(cpp_code@ =~= spec_x86_preamble() + spec_x86_signature(return_type_name@));
    }
    let ghost header = cpp_code@;
    let mut num_i_vals: usize = 0;
    let mut num_f_vals: usize = 0;
    let mut num_d_vals: usize = 0;
    let total = ctx.get_num_nodes();
    let mut p: usize = 0;
    while p < total
        invariant
            graph_wf(ctx@),
            nodes == ctx@.nodes,
            total == nodes.len(),
            total <= 0x0100_0000,
            p <= total,
            node_declared_type(nodes[0]) is Some,
            header == spec_x86_preamble() + spec_x86_signature(
                spec_simd_type_cpp_name(node_declared_type(nodes[0]).unwrap()),
            ),
            ({
                let (body, ni, nf, nd) = spec_x86_body_prefix(nodes, p as int);
                &&& cpp_code@ =~= header + body
                &&& num_i_vals == ni
                &&& num_f_vals == nf
                &&& num_d_vals == nd
            }),
        decreases total - p,
    {
        proof {
            lemma_x86_prefix_counts(nodes, p as int);
        }
        let ii = total - 1 - p;
        let counts = ctx.emit_node(&mut cpp_code, ii, num_i_vals, num_f_vals, num_d_vals);
        num_i_vals = counts.0;
        num_f_vals = counts.1;
        num_d_vals = counts.2;
        p = p + 1;
    }
    cpp_code.append("\treturn var_0;\n}\n\n");
    proof {
        let (code, ni, nf, nd) = spec_emit_x86(ctx@);
        assert(cpp_code@ =~= code);
    }
    (cpp_code, num_i_vals, num_f_vals, num_d_vals)
}

} // verus!
