//! The ARM graph-to-C++ emitter.
//!
//! As for the x86 flavor, nodes are emitted in reverse index order and the
//! emitted text is pinned down exactly by specification functions.  Entry
//! nodes of vector type take 16-element-aligned loads through the NEON `vld1`
//! family; scalars take single elements.
use vstd::prelude::*;

use crate::fmt_num::{spec_dec_nat, spec_dec_int, usize_to_dec, i32_to_dec, i64_to_dec};
use crate::graph_arm::{
    ARMSIMDCodegenCtx, ARMNodeV, ARMCtxV, graph_wf, graph_complete, node_declared_type,
    entry_types_ok,
};
use crate::arm_types::{
    ARMBaseType, ARMSIMDType, spec_arm_base_type_cpp_name, spec_arm_simd_type_cpp_name,
    spec_arm_ld_func, spec_arm_base_type_size_bytes, spec_arm_simd_type_size_bytes,
    spec_is_arm_base_type_floating_point, arm_base_type_to_cpp_type_name,
    arm_simd_type_to_cpp_type_name, arm_simd_type_to_ld_func, arm_base_type_size_bytes,
    arm_simd_type_size_bytes, is_arm_base_type_floating_point, arm_type_emit_ok, arm_counts_ok,
};
use crate::{spec_align, align_usize, lemma_align_properties};

verus! {

/// ARM input buffers are laid out on 16-element boundaries.
pub const ARM_SIMD_ALIGNMENT: usize = 16;

/// The fixed prologue.
pub open spec fn spec_arm_preamble() -> Seq<char> {
    "#include <arm_neon.h>\n"@
}

/// The emitted function's fixed signature around its return type.
pub open spec fn spec_arm_signature(ret_name: Seq<char>) -> Seq<char> {
    "extern \"C\" "@ + ret_name + " do_stuff(const int* iVals, const float* fVals, const double* dVals);\n"@
        + ret_name + " do_stuff(const int* iVals, const float* fVals, const double* dVals) {\n"@
}

/// The expression an entry node loads its value with, and the input-buffer
/// cursors after it.
pub open spec fn spec_arm_entry_load(t: ARMSIMDType, ni: nat, nf: nat, nd: nat) -> (Seq<
    char,
>, nat, nat, nat) {
    match t {
        ARMSIMDType::Primitive(b) => {
            let step = (spec_arm_base_type_size_bytes(b) + 3) / 4;
            if spec_is_arm_base_type_floating_point(b) {
                ("fVals["@ + spec_dec_nat(nf) + "]"@, ni, nf + step, nd)
            } else {
                (
                    "("@ + spec_arm_base_type_cpp_name(b) + ")iVals["@ + spec_dec_nat(ni) + "]"@,
                    ni + step,
                    nf,
                    nd,
                )
            }
        },
        ARMSIMDType::ConstantIntImmediate(_, _) => (Seq::empty(), ni, nf, nd),
        ARMSIMDType::SIMD(b, _) | ARMSIMDType::SIMDArr(b, _, _) => {
            let ld = spec_arm_ld_func(t);
            let bn = spec_arm_base_type_cpp_name(b);
            let size = spec_arm_simd_type_size_bytes(t);
            if b == ARMBaseType::Float32 {
                let start = spec_align(nf, 16);
                (
                    ld + "((const "@ + bn + "*)&fVals["@ + spec_dec_nat(start) + "])"@,
                    ni,
                    start + size / 4,
                    nd,
                )
            } else if b == ARMBaseType::Float64 {
                let start = spec_align(nd, 16);
                (
                    ld + "((const "@ + bn + "*)&dVals["@ + spec_dec_nat(start) + "])"@,
                    ni,
                    nf,
                    start + size / 8,
                )
            } else {
                let start = spec_align(ni, 16);
                (
                    ld + "((const "@ + bn + "*)&iVals["@ + spec_dec_nat(start) + "])"@,
                    start + size / 4,
                    nf,
                    nd,
                )
            }
        },
    }
}

/// The text of one operand at a call site.
pub open spec fn spec_arm_arg(nodes: Seq<ARMNodeV>, r: usize) -> Seq<char> {
    match nodes[r as int] {
        ARMNodeV::ConstantImmediate(_, _, v) => spec_dec_int(v as int),
        _ => "var_"@ + spec_dec_nat(r as nat),
    }
}

/// The first `k` comma-separated operands of a call.
pub open spec fn spec_arm_args_upto(nodes: Seq<ARMNodeV>, refs: Seq<usize>, k: int) -> Seq<char>
    decreases k,
{
    if k <= 0 {
        Seq::empty()
    } else {
        spec_arm_args_upto(nodes, refs, k - 1) + (if k - 1 > 0 {
            ", "@
        } else {
            Seq::<char>::empty()
        }) + spec_arm_arg(nodes, refs[k - 1])
    }
}

/// The line (possibly empty) one node contributes, with the buffer cursors it
/// leaves behind.
pub open spec fn spec_arm_node_code(nodes: Seq<ARMNodeV>, ii: int, ni: nat, nf: nat, nd: nat) -> (
    Seq<char>,
    nat,
    nat,
    nat,
) {
    match nodes[ii] {
        ARMNodeV::Immediate(b, v) => (
            "\t"@ + spec_arm_base_type_cpp_name(b) + " var_"@ + spec_dec_nat(ii as nat) + " = "@
                + spec_dec_int(v as int) + ";\n"@,
            ni,
            nf,
            nd,
        ),
        ARMNodeV::ConstantImmediate(_, _, _) => (Seq::empty(), ni, nf, nd),
        ARMNodeV::Zero(t) => (
            "\t"@ + spec_arm_simd_type_cpp_name(t) + " var_"@ + spec_dec_nat(ii as nat) + " = "@
                + "{};\n"@,
            ni,
            nf,
            nd,
        ),
        ARMNodeV::Entry(t) => {
            let (expr, ni2, nf2, nd2) = spec_arm_entry_load(t, ni, nf, nd);
            (
                "\t"@ + spec_arm_simd_type_cpp_name(t) + " var_"@ + spec_dec_nat(ii as nat)
                    + " = "@ + expr + ";\n"@,
                ni2,
                nf2,
                nd2,
            )
        },
        ARMNodeV::Produced(ci) => {
            let args = spec_arm_args_upto(nodes, ci.references, ci.references.len() as int);
            if ci.intrinsic.return_type == ARMSIMDType::Primitive(ARMBaseType::Void) {
                ("\t"@ + ci.intrinsic.name + "("@ + args + ");\n"@, ni, nf, nd)
            } else {
                (
                    "\t"@ + spec_arm_simd_type_cpp_name(ci.intrinsic.return_type) + " var_"@
                        + spec_dec_nat(ii as nat) + " = "@ + ci.intrinsic.name + "("@ + args
                        + ");\n"@,
                    ni,
                    nf,
                    nd,
                )
            }
        },
        ARMNodeV::NoOp => (Seq::empty(), ni, nf, nd),
        ARMNodeV::Pending(_) => (Seq::empty(), ni, nf, nd),
    }
}

/// The body text after the `p` highest-indexed nodes have been emitted.
pub open spec fn spec_arm_body_prefix(nodes: Seq<ARMNodeV>, p: int) -> (Seq<char>, nat, nat, nat)
    decreases p,
{
    if p <= 0 {
        (Seq::empty(), 0, 0, 0)
    } else {
        let (c1, ni1, nf1, nd1) = spec_arm_body_prefix(nodes, p - 1);
        let (cn, ni2, nf2, nd2) = spec_arm_node_code(nodes, nodes.len() - p, ni1, nf1, nd1);
        (c1 + cn, ni2, nf2, nd2)
    }
}

/// The complete emitted translation unit for an ARM graph, and the number of
/// int, float, and double input slots its entry nodes consume.
pub open spec fn spec_emit_arm(c: ARMCtxV) -> (Seq<char>, nat, nat, nat) {
    let ret_name = spec_arm_simd_type_cpp_name(node_declared_type(c.nodes[0]).unwrap());
    let (body, ni, nf, nd) = spec_arm_body_prefix(c.nodes, c.nodes.len() as int);
    (
        spec_arm_preamble() + spec_arm_signature(ret_name) + body + "\treturn var_0;\n}\n\n"@,
        ni,
        nf,
        nd,
    )
}

/// Nodes with emit-ready entry types move each cursor forward by at most 272.
#[verifier::rlimit(100)]
proof fn lemma_arm_node_counts(nodes: Seq<ARMNodeV>, ii: int, ni: nat, nf: nat, nd: nat)
    requires
        0 <= ii < nodes.len(),
        match nodes[ii] {
            ARMNodeV::Entry(t) => arm_type_emit_ok(t),
            _ => true,
        },
    ensures
        ({
            let (_, ni2, nf2, nd2) = spec_arm_node_code(nodes, ii, ni, nf, nd);
            ni <= ni2 <= ni + 272 && nf <= nf2 <= nf + 272 && nd <= nd2 <= nd + 272
        }),
{
    lemma_align_properties(ni, 16);
    lemma_align_properties(nf, 16);
    lemma_align_properties(nd, 16);
    if 0 <= ii < nodes.len() {
        match nodes[ii] {
            ARMNodeV::Entry(t) => {
                crate::arm_types::lemma_arm_size_bound(t);
                match t {
                    ARMSIMDType::Primitive(b) => {
                        assert(spec_arm_base_type_size_bytes(b) <= 16);
                    },
                    ARMSIMDType::SIMD(b, _) => {
                        assert(spec_arm_simd_type_size_bytes(t) <= 1024);
                        assert(spec_align(ni, 16) <= ni + 15);
                        assert(spec_align(nf, 16) <= nf + 15);
                        assert(spec_align(nd, 16) <= nd + 15);
                    },
                    ARMSIMDType::SIMDArr(b, _, _) => {
                        assert(spec_arm_simd_type_size_bytes(t) <= 1024);
                    },
                    _ => {},
                }
            },
            _ => {},
        }
    }
}

/// After `p` nodes every cursor is at most `272 * p`.
proof fn lemma_arm_prefix_counts(nodes: Seq<ARMNodeV>, p: int)
    requires
        0 <= p <= nodes.len(),
        forall|i: int|
            0 <= i < nodes.len() ==> (match #[trigger] nodes[i] {
                ARMNodeV::Entry(t) => arm_type_emit_ok(t),
                _ => true,
            }),
    ensures
        ({
            let (_, ni, nf, nd) = spec_arm_body_prefix(nodes, p);
            ni <= 272 * p && nf <= 272 * p && nd <= 272 * p
        }),
    decreases p,
{
    if p > 0 {
        lemma_arm_prefix_counts(nodes, p - 1);
        let (_, ni1, nf1, nd1) = spec_arm_body_prefix(nodes, p - 1);
        lemma_arm_node_counts(nodes, nodes.len() - p, ni1, nf1, nd1);
    }
}

} // verus!

verus! {

/// Append a declaration prefix: tab, the type, the variable, an equals sign.
fn arm_decl_prefix(cpp: &mut String, tname: &str, ii: usize)
    ensures
        final(cpp)@ =~= old(cpp)@ + "\t"@ + tname@ + " var_"@ + spec_dec_nat(ii as nat)
            + " = "@,
{
    cpp.append("\t");
    cpp.append(tname);
    cpp.append(" var_");
    let d = usize_to_dec(ii);
    cpp.append(d.as_str());
    cpp.append(" = ");
}

/// Append an entry node's load expression and advance the buffer cursors.
#[verifier::rlimit(100)]
fn arm_emit_entry_load(cpp: &mut String, t: ARMSIMDType, ni: usize, nf: usize, nd: usize) -> (r: (
    usize,
    usize,
    usize,
))
    requires
        arm_type_emit_ok(t),
        ni + 1024 <= usize::MAX,
        nf + 1024 <= usize::MAX,
        nd + 1024 <= usize::MAX,
    ensures
        ({
            let (expr, ni2, nf2, nd2) = spec_arm_entry_load(t, ni as nat, nf as nat, nd as nat);
            &&& final(cpp)@ =~= old(cpp)@ + expr
            &&& r.0 == ni2
            &&& r.1 == nf2
            &&& r.2 == nd2
        }),
{
    match t {
        ARMSIMDType::Primitive(b) => {
            let size = match b {
                ARMBaseType::Void => 0,
                _ => arm_base_type_size_bytes(b),
            };
            let step = (size + 3) / 4;
            if is_arm_base_type_floating_point(b) {
                cpp.append("fVals[");
                let d = usize_to_dec(nf);
                cpp.append(d.as_str());
                cpp.append("]");
                (ni, nf + step, nd)
            } else {
                cpp.append("(");
                cpp.append(arm_base_type_to_cpp_type_name(b));
                cpp.append(")iVals[");
                let d = usize_to_dec(ni);
                cpp.append(d.as_str());
                cpp.append("]");
                (ni + step, nf, nd)
            }
        },
        ARMSIMDType::ConstantIntImmediate(_, _) => (ni, nf, nd),
        ARMSIMDType::SIMD(b, _) | ARMSIMDType::SIMDArr(b, _, _) => {
            let ld = arm_simd_type_to_ld_func(t);
            let bn = arm_base_type_to_cpp_type_name(b);
            let size = arm_simd_type_size_bytes(t);
            proof {
                crate::arm_types::lemma_arm_size_bound(t);
            }
            if b == ARMBaseType::Float32 {
                let start = align_usize(nf, 16);
                cpp.append(ld.as_str());
                cpp.append("((const ");
                cpp.append(bn);
                cpp.append("*)&fVals[");
                let d = usize_to_dec(start);
                cpp.append(d.as_str());
                cpp.append("])");
                proof {
                    lemma_align_properties(nf as nat, 16);
                }
                (ni, start + size / 4, nd)
            } else if b == ARMBaseType::Float64 {
                let start = align_usize(nd, 16);
                cpp.append(ld.as_str());
                cpp.append("((const ");
                cpp.append(bn);
                cpp.append("*)&dVals[");
                let d = usize_to_dec(start);
                cpp.append(d.as_str());
                cpp.append("])");
                proof {
                    lemma_align_properties(nd as nat, 16);
                }
                (ni, nf, start + size / 8)
            } else {
                let start = align_usize(ni, 16);
                cpp.append(ld.as_str());
                cpp.append("((const ");
                cpp.append(bn);
                cpp.append("*)&iVals[");
                let d = usize_to_dec(start);
                cpp.append(d.as_str());
                cpp.append("])");
                proof {
                    lemma_align_properties(ni as nat, 16);
                }
                (start + size / 4, nf, nd)
            }
        },
    }
}

impl ARMSIMDCodegenCtx {
    /// Append the comma-separated operand list of the produced node at `ii`.
    fn emit_args(&self, cpp: &mut String, ii: usize)
        requires
            graph_wf(self@),
            ii < self@.nodes.len(),
            self@.nodes[ii as int] is Produced,
        ensures
            ({
                let ci = self@.nodes[ii as int]->Produced_0;
                final(cpp)@ =~= old(cpp)@ + spec_arm_args_upto(
                    self@.nodes,
                    ci.references,
                    ci.references.len() as int,
                )
            }),
    {
        let ghost civ = self@.nodes[ii as int]->Produced_0;
        proof {
            assert(crate::graph_arm::node_wf(self@, ii as int));
        }
        let num_refs = match &self.intrinsics_sequence[ii] {
            crate::graph_arm::ARMSIMDCodegenNode::Produced(ci) => ci.references.len(),
            _ => {
                proof {
                    assert(false);
                }
                0
            },
        };
        let mut k: usize = 0;
        while k < num_refs
            invariant
                graph_wf(self@),
                ii < self@.nodes.len(),
                self@.nodes[ii as int] is Produced,
                civ == self@.nodes[ii as int]->Produced_0,
                num_refs == civ.references.len(),
                k <= num_refs,
                cpp@ =~= old(cpp)@ + spec_arm_args_upto(self@.nodes, civ.references, k as int),
            decreases num_refs - k,
        {
            let r = match &self.intrinsics_sequence[ii] {
                crate::graph_arm::ARMSIMDCodegenNode::Produced(ci) => ci.references[k],
                _ => {
                    proof {
                        assert(false);
                    }
                    0
                },
            };
            proof {
                assert(crate::graph_arm::node_wf(self@, ii as int));
                assert(crate::graph_arm::produced_node_wf(self@, ii as int));
                assert((r as int) < self@.nodes.len());
            }
            if k > 0 {
                cpp.append(", ");
            }
            match &self.intrinsics_sequence[r] {
                crate::graph_arm::ARMSIMDCodegenNode::ConstantImmediate(_, _, v) => {
                    let d = i32_to_dec(*v);
                    cpp.append(d.as_str());
                },
                _ => {
                    cpp.append("var_");
                    let d = usize_to_dec(r);
                    cpp.append(d.as_str());
                },
            }
            k = k + 1;
            proof {
                assert(cpp@ =~= old(cpp)@ + spec_arm_args_upto(
                    self@.nodes,
                    civ.references,
                    k as int,
                ));
            }
        }
    }

    /// Append the code of the node at `ii`, threading the buffer cursors.
    #[verifier::rlimit(100)]
    fn emit_node(&self, cpp: &mut String, ii: usize, ni: usize, nf: usize, nd: usize) -> (r: (
        usize,
        usize,
        usize,
    ))
        requires
            graph_wf(self@),
            entry_types_ok(self@),
            ii < self@.nodes.len(),
            ni + 1024 <= usize::MAX,
            nf + 1024 <= usize::MAX,
            nd + 1024 <= usize::MAX,
        ensures
            ({
                let (code, ni2, nf2, nd2) = spec_arm_node_code(
                    self@.nodes,
                    ii as int,
                    ni as nat,
                    nf as nat,
                    nd as nat,
                );
                &&& final(cpp)@ =~= old(cpp)@ + code
                &&& r.0 == ni2
                &&& r.1 == nf2
                &&& r.2 == nd2
            }),
    {
        match &self.intrinsics_sequence[ii] {
            crate::graph_arm::ARMSIMDCodegenNode::Immediate(b, v) => {
                arm_decl_prefix(cpp, arm_base_type_to_cpp_type_name(*b), ii);
                let d = i64_to_dec(*v);
                cpp.append(d.as_str());
                cpp.append(";\n");
                (ni, nf, nd)
            },
            crate::graph_arm::ARMSIMDCodegenNode::ConstantImmediate(_, _, _) => (ni, nf, nd),
            crate::graph_arm::ARMSIMDCodegenNode::Zero(t) => {
                let tn = arm_simd_type_to_cpp_type_name(*t);
                arm_decl_prefix(cpp, tn.as_str(), ii);
                cpp.append("{};\n");
                (ni, nf, nd)
            },
            crate::graph_arm::ARMSIMDCodegenNode::Entry(t) => {
                let tn = arm_simd_type_to_cpp_type_name(*t);
                arm_decl_prefix(cpp, tn.as_str(), ii);
                let counts = arm_emit_entry_load(cpp, *t, ni, nf, nd);
                cpp.append(";\n");
                counts
            },
            crate::graph_arm::ARMSIMDCodegenNode::Produced(ci) => {
                let is_void = ci.intrinsic.return_type == ARMSIMDType::Primitive(
                    ARMBaseType::Void,
                );
                if is_void {
                    cpp.append("\t");
                    cpp.append(ci.intrinsic.intrinsic_name.as_str());
                    cpp.append("(");
                } else {
                    let tn = arm_simd_type_to_cpp_type_name(ci.intrinsic.return_type);
                    arm_decl_prefix(cpp, tn.as_str(), ii);
                    cpp.append(ci.intrinsic.intrinsic_name.as_str());
                    cpp.append("(");
                }
                self.emit_args(cpp, ii);
                cpp.append(");\n");
                (ni, nf, nd)
            },
            crate::graph_arm::ARMSIMDCodegenNode::NoOp => (ni, nf, nd),
            crate::graph_arm::ARMSIMDCodegenNode::Pending(_) => (ni, nf, nd),
        }
    }
}

/// Emit the whole translation unit for an ARM graph.  Returns the source and
/// the number of int, float, and double input slots it consumes.
pub fn generate_cpp_code_from_arm_codegen_ctx(ctx: &ARMSIMDCodegenCtx) -> (r: (
    String,
    usize,
    usize,
    usize,
))
    requires
        graph_wf(ctx@),
        entry_types_ok(ctx@),
        ctx@.nodes.len() >= 1,
        ctx@.nodes.len() <= 0x0010_0000,
        node_declared_type(ctx@.nodes[0]) is Some,
    ensures
        ({
            let (code, ni, nf, nd) = spec_emit_arm(ctx@);
            &&& r.0@ =~= code
            &&& r.1 == ni
            &&& r.2 == nf
            &&& r.3 == nd
        }),
{
    let ghost nodes = ctx@.nodes;
    let mut cpp_code = String::new();
    cpp_code.append("#include <arm_neon.h>\n");
    let return_type = ctx.get_return_type();
    let return_type_name = arm_simd_type_to_cpp_type_name(return_type);
    cpp_code.append("extern \"C\" ");
    cpp_code.append(return_type_name.as_str());
    cpp_code.append(" do_stuff(const int* iVals, const float* fVals, const double* dVals);\n");
    cpp_code.append(return_type_name.as_str());
    cpp_code.append(" do_stuff(const int* iVals, const float* fVals, const double* dVals) {\n");
    proof {
        assert(cpp_code@ =~= spec_arm_preamble() + spec_arm_signature(return_type_name@));
    }
    let ghost header = cpp_code@;
    let mut num_i_vals: usize = 0;
    let mut num_f_vals: usize = 0;
    let mut num_d_vals: usize = 0;
    let total = ctx.get_num_nodes();
    let mut p: usize = 0;
    while p < total
        invariant
            graph_wf(ctx@),
            entry_types_ok(ctx@),
            nodes == ctx@.nodes,
            total == nodes.len(),
            total <= 0x0010_0000,
            p <= total,
            node_declared_type(nodes[0]) is Some,
            header == spec_arm_preamble() + spec_arm_signature(
                spec_arm_simd_type_cpp_name(node_declared_type(nodes[0]).unwrap()),
            ),
            ({
                let (body, ni, nf, nd) = spec_arm_body_prefix(nodes, p as int);
                &&& cpp_code@ =~= header + body
                &&& num_i_vals == ni
                &&& num_f_vals == nf
                &&& num_d_vals == nd
            }),
        decreases total - p,
    {
        proof {
            lemma_arm_prefix_counts(nodes, p as int);
        }
        let ii = total - 1 - p;
        let counts = ctx.emit_node(&mut cpp_code, ii, num_i_vals, num_f_vals, num_d_vals);
        num_i_vals = counts.0;
        num_f_vals = counts.1;
        num_d_vals = counts.2;
        p = p + 1;
    }
    cpp_code.append("\treturn var_0;\n}\n\n");
    proof {
        let (code, ni, nf, nd) = spec_emit_arm(ctx@);
        assert(cpp_code@ =~= code);
    }
    (cpp_code, num_i_vals, num_f_vals, num_d_vals)
}

} // verus!
