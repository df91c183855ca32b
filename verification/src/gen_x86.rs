//! Graph generation for the x86 SIMD flavor: one pass over a bounded node
//! budget fills typed holes with intrinsic calls from the catalog, literals,
//! zeros, or input slots, and every graph it builds is well-formed and
//! complete.
use vstd::prelude::*;

use crate::graph_x86::{
    X86SIMDCodegenCtx, X86SIMDCodegenIntrinsic, X86SIMDCodegenIntrinsicV, X86NodeV,
    node_declared_type, node_is_pending, node_is_noop, node_reg_type, node_refs_contain,
    some_node_references, no_tombstones, consts_referenced, graph_wf, graph_complete,
    fresh_node_for_type,
};
use crate::x86_types::{
    X86BaseType, X86SIMDType, X86SIMDIntrinsic, X86SIMDIntrinsicV, spec_underlying_simd_type,
    get_underlying_simd_type,
};

verus! {

/// All catalogued intrinsics that return one given type.
pub struct X86TypeIntrinsics {
    pub key: X86SIMDType,
    pub intrinsics: Vec<X86SIMDIntrinsic>,
}

/// Mathematical image of one catalog entry.
pub struct X86TypeIntrinsicsV {
    pub key: X86SIMDType,
    pub intrinsics: Seq<X86SIMDIntrinsicV>,
}

impl View for X86TypeIntrinsics {
    type V = X86TypeIntrinsicsV;

    open spec fn view(&self) -> X86TypeIntrinsicsV {
        X86TypeIntrinsicsV {
            key: self.key,
            intrinsics: Seq::new(self.intrinsics@.len(), |i: int| self.intrinsics@[i]@),
        }
    }
}

/// The type-to-intrinsics catalog the generator draws from.
pub struct X86IntrinsicsByType {
    pub entries: Vec<X86TypeIntrinsics>,
}

impl View for X86IntrinsicsByType {
    type V = Seq<X86TypeIntrinsicsV>;

    open spec fn view(&self) -> Seq<X86TypeIntrinsicsV> {
        Seq::new(self.entries@.len(), |i: int| self.entries@[i]@)
    }
}

/// A sane catalog: one entry per return type, every intrinsic filed under its
/// own return type, modest parameter lists, and every constant-immediate
/// parameter carrying a representable bit width.
pub open spec fn catalog_wf(cat: Seq<X86TypeIntrinsicsV>) -> bool {
    &&& forall|i: int, j: int|
        0 <= i < j < cat.len() ==> (#[trigger] cat[i].key) != (#[trigger] cat[j].key)
    &&& forall|i: int, k: int|
        0 <= i < cat.len() && 0 <= k < cat[i].intrinsics.len() ==> {
            let intr = #[trigger] cat[i].intrinsics[k];
            &&& intr.return_type == cat[i].key
            &&& intr.param_types.len() <= 32
            &&& forall|p: int|
                0 <= p < intr.param_types.len() ==> match #[trigger] intr.param_types[p] {
                    X86SIMDType::ConstantImmediate(_, w) => 0 <= w <= 31,
                    _ => true,
                }
        }
}

/// Whether a type is one of the vector register types, the shapes the
/// generator may pick as a graph's return type.
pub open spec fn spec_is_vector_type(t: X86SIMDType) -> bool {
    match t {
        X86SIMDType::M64(_) => true,
        X86SIMDType::M128(_) => true,
        X86SIMDType::M128d(_) => true,
        X86SIMDType::M128i(_) => true,
        X86SIMDType::M256(_) => true,
        X86SIMDType::M256d(_) => true,
        X86SIMDType::M256i(_) => true,
        _ => false,
    }
}

fn is_vector_type(t: X86SIMDType) -> (r: bool)
    ensures
        r == spec_is_vector_type(t),
{
    match t {
        X86SIMDType::M64(_) => true,
        X86SIMDType::M128(_) => true,
        X86SIMDType::M128d(_) => true,
        X86SIMDType::M128i(_) => true,
        X86SIMDType::M256(_) => true,
        X86SIMDType::M256d(_) => true,
        X86SIMDType::M256i(_) => true,
        _ => false,
    }
}

/// Entry `i` can serve as the graph's ending type: a plain vector type with
/// at least one intrinsic producing it.
pub open spec fn usable_ending_entry(cat: Seq<X86TypeIntrinsicsV>, i: int) -> bool {
    &&& spec_is_vector_type(cat[i].key)
    &&& spec_underlying_simd_type(cat[i].key) == cat[i].key
    &&& cat[i].intrinsics.len() > 0
}

/// The call at a produced node is an entry of the catalog.
pub open spec fn intrinsic_in_catalog(
    cat: Seq<X86TypeIntrinsicsV>,
    civ: X86SIMDIntrinsicV,
) -> bool {
    exists|i: int, k: int|
        0 <= i < cat.len() && 0 <= k < cat[i].intrinsics.len() && (
        #[trigger] cat[i].intrinsics[k]) == civ
}

/// Every produced node calls an intrinsic taken from the catalog.
pub open spec fn produced_from_catalog(cat: Seq<X86TypeIntrinsicsV>, c: crate::graph_x86::X86CtxV) -> bool {
    forall|n: int|
        0 <= n < c.nodes.len() ==> match #[trigger] c.nodes[n] {
            X86NodeV::Produced(ci) => intrinsic_in_catalog(cat, ci.intrinsic),
            _ => true,
        }
}

impl X86IntrinsicsByType {
    /// Where the catalog keeps the entry for `key`, if anywhere.
    fn find_entry(&self, key: X86SIMDType) -> (r: Option<usize>)
        ensures
            match r {
                Some(i) => i < self@.len() && self@[i as int].key == key,
                None => forall|i: int|
                    0 <= i < self@.len() ==> (#[trigger] self@[i].key) != key,
            },
    {
        let mut i: usize = 0;
        while i < self.entries.len()
            invariant
                i <= self@.len(),
                forall|j: int| 0 <= j < i ==> (#[trigger] self@[j].key) != key,
            decreases self@.len() - i,
        {
            if self.entries[i].key == key {
                return Some(i);
            }
            i = i + 1;
        }
        None
    }
}

} // verus!

verus! {

/// Per-65536 thresholds standing for the configured small probabilities of
/// turning a hole into a zero value.
pub const ZERO_NODE_THRESHOLDS: [u32; 4] = [7, 66, 656, 1311];

/// Build a new graph into the fresh context `ctx`, one pass over a node
/// budget drawn from 40..140: pick an ending type producible by the catalog,
/// then fill each hole in turn with a zero value (rarely), an intrinsic call
/// whose operands come from `get_ref_of_type`, a literal for primitive types,
/// or an input slot; any hole past the budget becomes an input slot.  The
/// result is a complete, well-formed graph whose sink has a declared type.
pub fn generate_codegen_ctx(ctx: &mut X86SIMDCodegenCtx, intrinsics_by_type: &X86IntrinsicsByType)
    requires
        graph_wf(old(ctx)@),
        old(ctx)@.nodes.len() == 0,
        catalog_wf(intrinsics_by_type@),
        exists|i: int| 0 <= i < intrinsics_by_type@.len() && usable_ending_entry(intrinsics_by_type@, i),
    ensures
        graph_wf(final(ctx)@),
        graph_complete(final(ctx)@),
        1 <= final(ctx)@.nodes.len() <= 4622,
        node_declared_type(final(ctx)@.nodes[0]) is Some,
        no_tombstones(final(ctx)@),
        consts_referenced(final(ctx)@),
        produced_from_catalog(intrinsics_by_type@, final(ctx)@),
        final(ctx)@.nodes[0] is Produced,
        exists|i: int|
            0 <= i < intrinsics_by_type@.len() && #[trigger] usable_ending_entry(
                intrinsics_by_type@,
                i,
            ) && node_declared_type(final(ctx)@.nodes[0]) == Some(intrinsics_by_type@[i].key),
{
    let ghost cat = intrinsics_by_type@;
    // Pick the ending type uniformly from the catalog's producible vector types.
    let mut candidates: Vec<X86SIMDType> = Vec::new();
    let mut ci: usize = 0;
    while ci < intrinsics_by_type.entries.len()
        invariant
            cat == intrinsics_by_type@,
            ci <= cat.len(),
            forall|k: int|
                0 <= k < candidates@.len() ==> exists|i: int|
                    0 <= i < cat.len() && usable_ending_entry(cat, i) && (
                    #[trigger] candidates@[k]) == cat[i].key,
            forall|i: int|
                0 <= i < ci && usable_ending_entry(cat, i) ==> candidates@.contains(
                    #[trigger] cat[i].key,
                ),
        decreases cat.len() - ci,
    {
        let e = &intrinsics_by_type.entries[ci];
        if is_vector_type(e.key) && get_underlying_simd_type(e.key) == e.key
            && e.intrinsics.len() > 0 {
            let ghost prev = candidates@;
            candidates.push(e.key);
            proof {
                assert(usable_ending_entry(cat, ci as int));
                assert(candidates@.last() == cat[ci as int].key);
                assert(candidates@.contains(cat[ci as int].key));
                assert forall|i: int|
                    0 <= i < ci + 1 && usable_ending_entry(cat, i) implies candidates@.contains(
                    #[trigger] cat[i].key,
                ) by {
                    if i < ci {
                        let k = choose|k: int| 0 <= k < prev.len() && prev[k] == cat[i].key;
                        assert(candidates@[k] == cat[i].key);
                    }
                }
            }
        }
        ci = ci + 1;
    }
    proof {
        let w = choose|i: int| 0 <= i < cat.len() && usable_ending_entry(cat, i);
        assert(candidates@.contains(cat[w].key));
        assert(candidates@.len() > 0);
    }
    let pick = ctx.rng.rand_size() % candidates.len();
    let ending_type = candidates[pick];
    let ghost epick = choose|i: int|
        0 <= i < cat.len() && usable_ending_entry(cat, i) && ending_type == cat[i].key;
    proof {
        assert(spec_underlying_simd_type(ending_type) == ending_type);
    }

    let ghost start = ctx@;
    let _ = ctx.get_ref_of_type(ending_type, 0);
    proof {
        assert(ctx@.nodes.len() == 1);
        assert(ctx@.nodes[0] == X86NodeV::Pending(ending_type));
        assert(spec_is_vector_type(ending_type));
        lemma_gen_step_preserved(start, ctx@, cat, ending_type);
    }

    let num_node_iterations: usize = 40 + (ctx.rng.rand_size() % 100);
    let zero_threshold: u32 = ZERO_NODE_THRESHOLDS[(ctx.rng.rand() % 4) as usize];

    let mut ii: usize = 0;
    while ii < num_node_iterations
        invariant
            cat == intrinsics_by_type@,
            catalog_wf(cat),
            num_node_iterations <= 139,
            spec_underlying_simd_type(ending_type) == ending_type,
            0 <= epick < cat.len() && usable_ending_entry(cat, epick) && ending_type == cat[epick].key,
            ii <= num_node_iterations,
            ii == 0 ==> ctx@.nodes[0] == X86NodeV::Pending(ending_type),
            graph_wf(ctx@),
            ii <= ctx@.nodes.len(),
            ctx@.nodes.len() <= 1 + 33 * ii,
            forall|i: int| 0 <= i < ii && i < ctx@.nodes.len() ==> !node_is_pending(
                #[trigger] ctx@.nodes[i],
            ),
            ii >= 1 ==> ctx@.nodes[0] is Produced && node_declared_type(ctx@.nodes[0]) == Some(
                ending_type,
            ),
            ctx@.nodes.len() >= 1,
            no_tombstones(ctx@),
            consts_referenced(ctx@),
            produced_from_catalog(cat, ctx@),
        decreases num_node_iterations - ii,
    {
        if ii >= ctx.get_num_nodes() {
            let ghost before = ctx@;
            let _ = ctx.get_ref_of_type(ending_type, ii);
            proof {
                lemma_gen_step_preserved(before, ctx@, cat, ending_type);
            }
        }
        proof {
            assert(ii < ctx@.nodes.len());
        }
        let pending = ctx.get_type_of_pending_node(ii);
        if let Some(node_type_raw) = pending {
            let node_type = get_underlying_simd_type(node_type_raw);
            proof {
                assert(node_reg_type(ctx@.nodes[ii as int]) == Some(node_type));
            }
            let draw_zero = ii > 0 && (ctx.rng.rand() % 65536) < zero_threshold;
            if draw_zero {
                let ghost before = ctx@;
                ctx.mark_node_as_zero(ii);
                proof {
                    lemma_gen_update_preserved(before, ctx@, cat, ii as int);
                    lemma_gen_consts_carry(before, ctx@);
                }
            } else {
                match intrinsics_by_type.find_entry(node_type) {
                    Some(ei) => {
                        let list_len = intrinsics_by_type.entries[ei].intrinsics.len();
                        proof {
                            if ii == 0 {
                                assert(node_type == ending_type);
                                assert(cat[ei as int].key == cat[epick].key);
                                if ei as int != epick {
                                    assert(false);
                                }
                                assert(list_len > 0);
                            }
                        }
                        if list_len == 0 {
                            // An empty catalog entry produces nothing; leave
                            // the hole for the entry pass below.
                            proof {
                                assert(ii != 0);
                            }
                            let ghost before = ctx@;
                            ctx.mark_node_as_entry(ii);
                            proof {
                                lemma_gen_update_preserved(before, ctx@, cat, ii as int);
                                lemma_gen_consts_carry(before, ctx@);
                            }
                        } else {
                            let which = ctx.rng.rand_size() % list_len;
                            let chosen = intrinsics_by_type.entries[ei].intrinsics[which].clone();
                            let ghost chosenv = chosen@;
                            proof {
                                assert(cat[ei as int].intrinsics[which as int] == chosenv);
                                assert(chosenv.return_type == node_type);
                                assert(chosenv.param_types.len() <= 32);
                            }
                            let ghost len0 = ctx@.nodes.len();
                            let mut references: Vec<usize> = Vec::new();
                            let num_params = chosen.param_types.len();
                            let mut p: usize = 0;
                            while p < num_params
                                invariant
                                    cat == intrinsics_by_type@,
                                    catalog_wf(cat),
                                    num_params == chosenv.param_types.len(),
                                    chosenv == chosen@,
                                    chosenv.param_types.len() <= 32,
                                    forall|q: int|
                                        0 <= q < chosenv.param_types.len() ==> match
                                            #[trigger] chosenv.param_types[q] {
                                            X86SIMDType::ConstantImmediate(_, w) => 0 <= w <= 31,
                                            _ => true,
                                        },
                                    p <= num_params,
                                    ii < 139,
                                    references@.len() == p as int,
                                    graph_wf(ctx@),
                                    ii < ctx@.nodes.len(),
                                    len0 <= ctx@.nodes.len() <= len0 + p,
                                    len0 <= 1 + 33 * ii + 1,
                                    ctx@.nodes[ii as int] is Pending,
                                    ctx@.nodes[ii as int] == X86NodeV::Pending(node_type_raw),
                                    spec_underlying_simd_type(node_type_raw) == node_type,
                                    forall|i: int| 0 <= i < ii ==> !node_is_pending(
                                        #[trigger] ctx@.nodes[i],
                                    ),
                                    ii >= 1 ==> ctx@.nodes[0] is Produced && node_declared_type(
                                        ctx@.nodes[0],
                                    ) == Some(ending_type),
                                    ctx@.nodes.len() >= 1,
                                    no_tombstones(ctx@),
                                    produced_from_catalog(cat, ctx@),
                                    forall|i: int|
                                        0 <= i < ctx@.nodes.len() && (#[trigger] ctx@.nodes[i])
                                            is ConstantImmediate ==> (some_node_references(
                                            ctx@,
                                            i as usize,
                                        ) || references@.contains(i as usize)),
                                    forall|k: int|
                                        0 <= k < p ==> {
                                            let r = #[trigger] references@[k];
                                            &&& (r as int) < ctx@.nodes.len()
                                            &&& r > ii
                                            &&& node_reg_type(ctx@.nodes[r as int]) == Some(
                                                spec_underlying_simd_type(
                                                    chosenv.param_types[k],
                                                ),
                                            )
                                        },
                                decreases num_params - p,
                            {
                                let param_type = chosen.param_types[p];
                                let ghost before = ctx@;
                                let ref_idx = ctx.get_ref_of_type(param_type, ii);
                                proof {
                                    if ctx@.nodes.len() == before.nodes.len() {
                                        assert(ref_idx > ii);
                                    } else {
                                        assert(ref_idx as int == before.nodes.len());
                                        assert(ref_idx >= ii + 1);
                                    }
                                    assert forall|k: int| 0 <= k < p implies {
                                        let r = #[trigger] references@[k];
                                        &&& (r as int) < ctx@.nodes.len()
                                        &&& r > ii
                                        &&& node_reg_type(ctx@.nodes[r as int]) == Some(
                                            spec_underlying_simd_type(chosenv.param_types[k]),
                                        )
                                    } by {
                                        let r = references@[k];
                                        assert(ctx@.nodes[r as int] == before.nodes[r as int]);
                                    }
                                }
                                let ghost refs_before = references@;
                                references.push(ref_idx);
                                proof {
                                    lemma_gen_param_step(
                                        before,
                                        ctx@,
                                        cat,
                                        param_type,
                                        refs_before,
                                        references@,
                                        ref_idx,
                                    );
                                }
                                p = p + 1;
                            }
                            let ghost refsv = references@;
                            let node_intrinsic = X86SIMDCodegenIntrinsic {
                                intrinsic: chosen,
                                references,
                            };
                            proof {
                                assert(node_intrinsic@.intrinsic == chosenv);
                                assert(node_intrinsic@.references == refsv);
                                assert(spec_underlying_simd_type(node_intrinsic@.intrinsic.return_type)
                                    == spec_underlying_simd_type(node_type_raw));
                            }
                            let ghost before = ctx@;
                            ctx.produce_for_idx(ii, node_intrinsic);
                            proof {
                                assert(cat[ei as int].intrinsics[which as int] == chosenv);
                                assert(intrinsic_in_catalog(cat, chosenv));
                                lemma_gen_update_preserved(before, ctx@, cat, ii as int);
                                assert forall|i: int|
                                    0 <= i < ctx@.nodes.len() && (#[trigger] ctx@.nodes[i])
                                        is ConstantImmediate implies some_node_references(
                                    ctx@,
                                    i as usize,
                                ) by {
                                    assert(before.nodes[i] is ConstantImmediate);
                                    if some_node_references(before, i as usize) {
                                    } else {
                                        assert(refsv.contains(i as usize));
                                        let k = choose|k: int|
                                            0 <= k < refsv.len() && refsv[k] == i as usize;
                                        assert(ctx@.nodes[ii as int] == X86NodeV::Produced(
                                            X86SIMDCodegenIntrinsicV {
                                                intrinsic: chosenv,
                                                references: refsv,
                                            },
                                        ));
                                        assert(node_refs_contain(
                                            ctx@.nodes[ii as int],
                                            i as usize,
                                        ));
                                        assert(some_node_references(ctx@, i as usize));
                                    }
                                }
                            }
                        }
                    },
                    None => {
                        match node_type {
                            X86SIMDType::Primitive(prim_type) => {
                                proof {
                                    assert(node_type_raw == X86SIMDType::Primitive(prim_type));
                                    if ii == 0 {
                                        assert(cat[epick].key == ending_type);
                                        assert(false);
                                    }
                                }
                                let ghost before = ctx@;
                                ctx.mark_node_as_immediate(ii, prim_type);
                                proof {
                                    lemma_gen_update_preserved(before, ctx@, cat, ii as int);
                                    lemma_gen_consts_carry(before, ctx@);
                                }
                            },
                            _ => {
                                // Only a load could produce this type; make it
                                // an input slot.
                                proof {
                                    if ii == 0 {
                                        assert(cat[epick].key == ending_type);
                                        assert(false);
                                    }
                                }
                                let ghost before = ctx@;
                                ctx.mark_node_as_entry(ii);
                                proof {
                                    lemma_gen_update_preserved(before, ctx@, cat, ii as int);
                                    lemma_gen_consts_carry(before, ctx@);
                                }
                            },
                        }
                    },
                }
            }
        }
        ii = ii + 1;
    }

    let mut jj: usize = num_node_iterations;
    let total = ctx.get_num_nodes();
    while jj < total
        invariant
            cat == intrinsics_by_type@,
            total == ctx@.nodes.len(),
            total <= 4622,
            num_node_iterations <= jj <= total,
            graph_wf(ctx@),
            forall|i: int| 0 <= i < jj ==> !node_is_pending(#[trigger] ctx@.nodes[i]),
            0 <= epick < cat.len() && usable_ending_entry(cat, epick) && ending_type == cat[epick].key,
            ctx@.nodes[0] is Produced && node_declared_type(ctx@.nodes[0]) == Some(ending_type),
            ctx@.nodes.len() >= 1,
            no_tombstones(ctx@),
            consts_referenced(ctx@),
            produced_from_catalog(cat, ctx@),
        decreases total - jj,
    {
        if ctx.get_type_of_pending_node(jj).is_some() {
            let ghost before = ctx@;
            ctx.mark_node_as_entry(jj);
            proof {
                lemma_gen_update_preserved(before, ctx@, cat, jj as int);
                lemma_gen_consts_carry(before, ctx@);
            }
        }
        jj = jj + 1;
    }
    proof {
        assert(0 <= epick < cat.len() && usable_ending_entry(cat, epick)
            && node_declared_type(ctx@.nodes[0]) == Some(cat[epick].key));
    }
}

} // verus!

verus! {

/// Appending one fresh non-constant node (or reusing an existing one)
/// preserves the generator's structural guarantees.
proof fn lemma_gen_step_preserved(
    c0: crate::graph_x86::X86CtxV,
    c1: crate::graph_x86::X86CtxV,
    cat: Seq<X86TypeIntrinsicsV>,
    t: X86SIMDType,
)
    requires
        no_tombstones(c0),
        consts_referenced(c0),
        produced_from_catalog(cat, c0),
        !(t is ConstantImmediate),
        c1.nodes.len() >= c0.nodes.len(),
        forall|i: int| 0 <= i < c0.nodes.len() ==> c1.nodes[i] == c0.nodes[i],
        c1.nodes.len() == c0.nodes.len() || (c1.nodes.len() == c0.nodes.len() + 1 && exists|v: u32|
            c1.nodes =~= c0.nodes.push(fresh_node_for_type(t, v))),
    ensures
        no_tombstones(c1),
        consts_referenced(c1),
        produced_from_catalog(cat, c1),
{
    if c1.nodes.len() == c0.nodes.len() + 1 {
        let v = choose|v: u32| c1.nodes =~= c0.nodes.push(fresh_node_for_type(t, v));
        assert(c1.nodes[c0.nodes.len() as int] == fresh_node_for_type(t, v));
        assert(fresh_node_for_type(t, v) is Pending);
    }
    assert forall|i: int|
        0 <= i < c1.nodes.len() && (#[trigger] c1.nodes[i]) is ConstantImmediate implies
        some_node_references(c1, i as usize) by {
        assert(c0.nodes[i] is ConstantImmediate);
        assert(some_node_references(c0, i as usize));
        let j = choose|j: int|
            0 <= j < c0.nodes.len() && node_refs_contain(#[trigger] c0.nodes[j], i as usize);
        assert(node_refs_contain(c1.nodes[j], i as usize));
    }
}

/// Replacing a typed hole by a live non-constant node preserves the
/// generator's structural guarantees; a produced replacement must call a
/// catalog intrinsic.
proof fn lemma_gen_update_preserved(
    c0: crate::graph_x86::X86CtxV,
    c1: crate::graph_x86::X86CtxV,
    cat: Seq<X86TypeIntrinsicsV>,
    idx: int,
)
    requires
        no_tombstones(c0),
        produced_from_catalog(cat, c0),
        0 <= idx < c0.nodes.len(),
        c0.nodes[idx] is Pending,
        c1.nodes =~= c0.nodes.update(idx, c1.nodes[idx]),
        !(c1.nodes[idx] is NoOp),
        (match c1.nodes[idx] {
            X86NodeV::Produced(ci) => intrinsic_in_catalog(cat, ci.intrinsic),
            _ => true,
        }),
    ensures
        no_tombstones(c1),
        produced_from_catalog(cat, c1),
        forall|i: int|
            0 <= i < c0.nodes.len() && some_node_references(c0, i as usize)
                ==> #[trigger] some_node_references(c1, i as usize),
{
    assert forall|i: int|
        0 <= i < c0.nodes.len() && some_node_references(c0, i as usize) implies
        #[trigger] some_node_references(c1, i as usize) by {
        let j = choose|j: int|
            0 <= j < c0.nodes.len() && node_refs_contain(#[trigger] c0.nodes[j], i as usize);
        assert(j != idx);
        assert(node_refs_contain(c1.nodes[j], i as usize));
    }
}

} // verus!

verus! {

/// After an update that neither adds nor removes constant nodes and keeps
/// every reference, the constants stay referenced.
proof fn lemma_gen_consts_carry(c0: crate::graph_x86::X86CtxV, c1: crate::graph_x86::X86CtxV)
    requires
        consts_referenced(c0),
        c1.nodes.len() == c0.nodes.len(),
        forall|i: int|
            0 <= i < c1.nodes.len() && (#[trigger] c1.nodes[i]) is ConstantImmediate
                ==> c0.nodes[i] is ConstantImmediate,
        forall|i: int|
            0 <= i < c0.nodes.len() && some_node_references(c0, i as usize)
                ==> #[trigger] some_node_references(c1, i as usize),
    ensures
        consts_referenced(c1),
{
}

/// One operand acquisition inside the parameter loop: the fresh or reused
/// node keeps the generator's guarantees, and every constant is referenced
/// or is now on the pending operand list.
proof fn lemma_gen_param_step(
    c0: crate::graph_x86::X86CtxV,
    c1: crate::graph_x86::X86CtxV,
    cat: Seq<X86TypeIntrinsicsV>,
    t: X86SIMDType,
    refs0: Seq<usize>,
    refs1: Seq<usize>,
    ref_idx: usize,
)
    requires
        no_tombstones(c0),
        produced_from_catalog(cat, c0),
        forall|i: int|
            0 <= i < c0.nodes.len() && (#[trigger] c0.nodes[i]) is ConstantImmediate ==> (
            some_node_references(c0, i as usize) || refs0.contains(i as usize)),
        c1.nodes.len() >= c0.nodes.len(),
        forall|i: int| 0 <= i < c0.nodes.len() ==> c1.nodes[i] == c0.nodes[i],
        c1.nodes.len() == c0.nodes.len() || (c1.nodes.len() == c0.nodes.len() + 1 && (ref_idx
            as int) == c0.nodes.len() && exists|v: u32|
            c1.nodes =~= c0.nodes.push(fresh_node_for_type(t, v))),
        refs1 =~= refs0.push(ref_idx),
    ensures
        no_tombstones(c1),
        produced_from_catalog(cat, c1),
        forall|i: int|
            0 <= i < c1.nodes.len() && (#[trigger] c1.nodes[i]) is ConstantImmediate ==> (
            some_node_references(c1, i as usize) || refs1.contains(i as usize)),
{
    if c1.nodes.len() == c0.nodes.len() + 1 {
        let v = choose|v: u32| c1.nodes =~= c0.nodes.push(fresh_node_for_type(t, v));
        assert(c1.nodes[c0.nodes.len() as int] == fresh_node_for_type(t, v));
    }
    assert forall|i: int|
        0 <= i < c1.nodes.len() && (#[trigger] c1.nodes[i]) is ConstantImmediate implies (
    some_node_references(c1, i as usize) || refs1.contains(i as usize)) by {
        if i < c0.nodes.len() {
            assert(c0.nodes[i] is ConstantImmediate);
            if some_node_references(c0, i as usize) {
                let j = choose|j: int|
                    0 <= j < c0.nodes.len() && node_refs_contain(
                        #[trigger] c0.nodes[j],
                        i as usize,
                    );
                assert(node_refs_contain(c1.nodes[j], i as usize));
                assert(some_node_references(c1, i as usize));
            } else {
                let k = choose|k: int| 0 <= k < refs0.len() && refs0[k] == i as usize;
                assert(refs1[k] == i as usize);
                assert(refs1.contains(i as usize));
            }
        } else {
            assert(i == c0.nodes.len());
            assert(refs1.last() == ref_idx);
            assert(refs1.contains(i as usize));
        }
    }
}

} // verus!

verus! {

/// Whether a catalog entry can serve as an ending type.
pub fn find_usable_ending_entry(cat: &X86IntrinsicsByType) -> (r: bool)
    ensures
        r == exists|i: int| 0 <= i < cat@.len() && usable_ending_entry(cat@, i),
{
    let mut found = false;
    let mut i: usize = 0;
    while i < cat.entries.len()
        invariant
            cat@.len() == cat.entries@.len(),
            i <= cat@.len(),
            found == exists|k: int| 0 <= k < i && usable_ending_entry(cat@, k),
        decreases cat@.len() - i,
    {
        let e = &cat.entries[i];
        let under = get_underlying_simd_type(e.key);
        if is_vector_type(e.key) && under == e.key && e.intrinsics.len() > 0 {
            proof {
                assert(cat@[i as int] == cat.entries@[i as int]@);
                assert(usable_ending_entry(cat@, i as int));
            }
            found = true;
        }
        i = i + 1;
    }
    found
}

/// File the parsed intrinsics under their return types: one entry per
/// distinct return type, in first-appearance order, each holding every
/// intrinsic that returns it.
pub fn build_x86_catalog(intrinsics: &Vec<X86SIMDIntrinsic>) -> (r: X86IntrinsicsByType)
    requires
        forall|i: int|
            0 <= i < intrinsics@.len() ==> crate::x86_parse::x86_intrinsic_sig_ok(
                (#[trigger] intrinsics@[i])@,
            ),
    ensures
        catalog_wf(r@),
        forall|i: int| 0 <= i < r@.len() ==> (#[trigger] r@[i]).intrinsics.len() > 0,
{
    // Collect the distinct return types.
    let mut keys: Vec<X86SIMDType> = Vec::new();
    let mut k: usize = 0;
    while k < intrinsics.len()
        invariant
            k <= intrinsics@.len(),
            forall|a: int, b: int| 0 <= a < b < keys@.len() ==> keys@[a] != keys@[b],
        decreases intrinsics@.len() - k,
    {
        let key = intrinsics[k].return_type;
        let mut seen = false;
        let mut a: usize = 0;
        while a < keys.len()
            invariant
                a <= keys@.len(),
                seen ==> keys@.contains(key),
                !seen ==> forall|b: int| 0 <= b < a ==> keys@[b] != key,
            decreases keys@.len() - a,
        {
            if keys[a] == key {
                seen = true;
            }
            a = a + 1;
        }
        if !seen {
            keys.push(key);
        }
        k = k + 1;
    }
    // One catalog entry per key.
    let mut entries: Vec<X86TypeIntrinsics> = Vec::new();
    let mut ki: usize = 0;
    while ki < keys.len()
        invariant
            ki <= keys@.len(),
            forall|i: int|
                0 <= i < intrinsics@.len() ==> crate::x86_parse::x86_intrinsic_sig_ok(
                    (#[trigger] intrinsics@[i])@,
                ),
            forall|a: int, b: int| 0 <= a < b < keys@.len() ==> keys@[a] != keys@[b],
            entries@.len() <= ki,
            forall|i: int|
                0 <= i < entries@.len() ==> exists|a: int|
                    0 <= a < ki && (#[trigger] entries@[i]@.key) == keys@[a],
            forall|a: int, b: int|
                0 <= a < b < entries@.len() ==> (#[trigger] entries@[a]@.key) != (
                #[trigger] entries@[b]@.key),
            forall|i: int, k2: int|
                0 <= i < entries@.len() && 0 <= k2 < entries@[i]@.intrinsics.len() ==> {
                    let x = (#[trigger] entries@[i]@.intrinsics[k2]);
                    &&& x.return_type == entries@[i]@.key
                    &&& x.param_types.len() <= 32
                    &&& forall|p: int|
                        0 <= p < x.param_types.len() ==> match #[trigger] x.param_types[p] {
                            X86SIMDType::ConstantImmediate(_, w) => 0 <= w <= 31,
                            _ => true,
                        }
                },
            forall|i: int| 0 <= i < entries@.len() ==> (#[trigger] entries@[i]@).intrinsics.len() > 0,
        decreases keys@.len() - ki,
    {
        let key = keys[ki];
        let mut bucket: Vec<X86SIMDIntrinsic> = Vec::new();
        let mut m: usize = 0;
        while m < intrinsics.len()
            invariant
                m <= intrinsics@.len(),
                forall|i: int|
                    0 <= i < intrinsics@.len() ==> crate::x86_parse::x86_intrinsic_sig_ok(
                        (#[trigger] intrinsics@[i])@,
                    ),
                forall|i: int|
                    0 <= i < bucket@.len() ==> {
                        let x = (#[trigger] bucket@[i])@;
                        &&& x.return_type == key
                        &&& x.param_types.len() <= 32
                        &&& forall|p: int|
                            0 <= p < x.param_types.len() ==> match #[trigger] x.param_types[p] {
                                X86SIMDType::ConstantImmediate(_, w) => 0 <= w <= 31,
                                _ => true,
                            }
                    },
            decreases intrinsics@.len() - m,
        {
            if intrinsics[m].return_type == key {
                proof {
                    assert(crate::x86_parse::x86_intrinsic_sig_ok(intrinsics@[m as int]@));
                }
                bucket.push(intrinsics[m].clone());
            }
            m = m + 1;
        }
        if bucket.len() > 0 {
            let ghost before = entries@;
            entries.push(X86TypeIntrinsics { key, intrinsics: bucket });
            proof {
                assert forall|i: int|
                    0 <= i < entries@.len() implies exists|a: int|
                    0 <= a < ki + 1 && (#[trigger] entries@[i]@.key) == keys@[a] by {
                    if i < before.len() {
                        assert(entries@[i] == before[i]);
                        let a = choose|a: int|
                            0 <= a < ki && (#[trigger] before[i]@.key) == keys@[a];
                        assert(0 <= a < ki + 1 && entries@[i]@.key == keys@[a]);
                    } else {
                        assert(entries@[i]@.key == keys@[ki as int]);
                    }
                }
                assert forall|a: int, b: int|
                    0 <= a < b < entries@.len() implies (#[trigger] entries@[a]@.key) != (
                #[trigger] entries@[b]@.key) by {
                    if b < before.len() {
                        assert(entries@[a] == before[a] && entries@[b] == before[b]);
                    } else {
                        assert(entries@[a] == before[a]);
                        let a2 = choose|a2: int|
                            0 <= a2 < ki && (#[trigger] before[a]@.key) == keys@[a2];
                        assert(entries@[b]@.key == keys@[ki as int]);
                        assert(keys@[a2] != keys@[ki as int]);
                    }
                }
            }
        }
        ki = ki + 1;
    }
    let r = X86IntrinsicsByType { entries };
    proof {
        assert forall|i: int, j2: int| 0 <= i < j2 < r@.len() implies (#[trigger] r@[i].key) != (
        #[trigger] r@[j2].key) by {
            assert(r@[i].key == entries@[i]@.key && r@[j2].key == entries@[j2]@.key);
        }
        assert forall|i: int, k2: int|
            0 <= i < r@.len() && 0 <= k2 < r@[i].intrinsics.len() implies {
            let intr = #[trigger] r@[i].intrinsics[k2];
            &&& intr.return_type == r@[i].key
            &&& intr.param_types.len() <= 32
            &&& forall|p: int|
                0 <= p < intr.param_types.len() ==> match #[trigger] intr.param_types[p] {
                    X86SIMDType::ConstantImmediate(_, w) => 0 <= w <= 31,
                    _ => true,
                }
        } by {
            assert(r@[i] == entries@[i]@);
            assert(r@[i].intrinsics[k2] == entries@[i]@.intrinsics[k2]);
        }
    }
    r
}

} // verus!
