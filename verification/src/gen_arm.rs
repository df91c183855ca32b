//! Graph generation for the ARM NEON flavor: one pass over a bounded node
//! budget fills typed holes with intrinsic calls from the catalog, literals,
//! zeros, or input slots, and every graph it builds is well-formed and
//! complete.
use vstd::prelude::*;

use crate::graph_arm::{
    ARMSIMDCodegenCtx, ARMSIMDCodegenIntrinsic, ARMSIMDCodegenIntrinsicV, ARMNodeV,
    node_declared_type, node_is_pending, node_is_noop, node_reg_type, node_refs_contain,
    some_node_references, no_tombstones, consts_referenced, graph_wf, graph_complete,
    entry_types_ok, fresh_node_for_type,
};
use crate::arm_types::{
    ARMBaseType, ARMSIMDType, ARMSIMDIntrinsic, ARMSIMDIntrinsicV, arm_type_emit_ok,
};

verus! {

/// All catalogued intrinsics that return one given type.
pub struct ARMTypeIntrinsics {
    pub key: ARMSIMDType,
    pub intrinsics: Vec<ARMSIMDIntrinsic>,
}

/// Mathematical image of one catalog entry.
pub struct ARMTypeIntrinsicsV {
    pub key: ARMSIMDType,
    pub intrinsics: Seq<ARMSIMDIntrinsicV>,
}

impl View for ARMTypeIntrinsics {
    type V = ARMTypeIntrinsicsV;

    open spec fn view(&self) -> ARMTypeIntrinsicsV {
        ARMTypeIntrinsicsV {
            key: self.key,
            intrinsics: Seq::new(self.intrinsics@.len(), |i: int| self.intrinsics@[i]@),
        }
    }
}

/// The type-to-intrinsics catalog the generator draws from.
pub struct ARMIntrinsicsByType {
    pub entries: Vec<ARMTypeIntrinsics>,
}

impl View for ARMIntrinsicsByType {
    type V = Seq<ARMTypeIntrinsicsV>;

    open spec fn view(&self) -> Seq<ARMTypeIntrinsicsV> {
        Seq::new(self.entries@.len(), |i: int| self.entries@[i]@)
    }
}

/// A sane catalog: one entry per return type, every intrinsic filed under its
/// own return type, modest parameter lists, and every constant-immediate
/// parameter carrying a representable bit width.
pub open spec fn catalog_wf(cat: Seq<ARMTypeIntrinsicsV>) -> bool {
    &&& forall|i: int, j: int|
        0 <= i < j < cat.len() ==> (#[trigger] cat[i].key) != (#[trigger] cat[j].key)
    &&& forall|i: int, k: int|
        0 <= i < cat.len() && 0 <= k < cat[i].intrinsics.len() ==> {
            let intr = #[trigger] cat[i].intrinsics[k];
            &&& intr.return_type == cat[i].key
            &&& intr.param_types.len() <= 32
            &&& forall|p: int|
                0 <= p < intr.param_types.len() ==> match #[trigger] intr.param_types[p] {
                    ARMSIMDType::ConstantIntImmediate(mn, mx) => mn <= mx,
                    _ => arm_type_emit_ok(intr.param_types[p]),
                }
        }
}

/// Every listed return type is the key of a usable catalog entry.
pub open spec fn list_covered(cat: Seq<ARMTypeIntrinsicsV>, list: Seq<ARMSIMDType>) -> bool {
    forall|k: int|
        0 <= k < list.len() ==> exists|i: int|
            0 <= i < cat.len() && usable_ending_entry(cat, i) && (#[trigger] list[k]) == cat[i].key
}

/// Entry `i` can serve as the graph's ending type: a producible
/// non-constant type.
pub open spec fn usable_ending_entry(cat: Seq<ARMTypeIntrinsicsV>, i: int) -> bool {
    &&& !(cat[i].key is ConstantIntImmediate)
    &&& arm_type_emit_ok(cat[i].key)
    &&& cat[i].intrinsics.len() > 0
}

/// The call at a produced node is an entry of the catalog.
pub open spec fn intrinsic_in_catalog(
    cat: Seq<ARMTypeIntrinsicsV>,
    civ: ARMSIMDIntrinsicV,
) -> bool {
    exists|i: int, k: int|
        0 <= i < cat.len() && 0 <= k < cat[i].intrinsics.len() && (
        #[trigger] cat[i].intrinsics[k]) == civ
}

/// Every produced node calls an intrinsic taken from the catalog.
pub open spec fn produced_from_catalog(cat: Seq<ARMTypeIntrinsicsV>, c: crate::graph_arm::ARMCtxV) -> bool {
    forall|n: int|
        0 <= n < c.nodes.len() ==> match #[trigger] c.nodes[n] {
            ARMNodeV::Produced(ci) => intrinsic_in_catalog(cat, ci.intrinsic),
            _ => true,
        }
}

impl ARMIntrinsicsByType {
    /// Where the catalog keeps the entry for `key`, if anywhere.
    fn find_entry(&self, key: ARMSIMDType) -> (r: Option<usize>)
        ensures
            match r {
                Some(i) => i < self@.len() && self@[i as int].key == key,
                None => forall|i: int|
                    0 <= i < self@.len() ==> (#[trigger] self@[i].key) != key,
            },
    {
        let mut i: usize = 0;
        while i < self.entries.len()
            invariant
                i <= self@.len(),
                forall|j: int| 0 <= j < i ==> (#[trigger] self@[j].key) != key,
            decreases self@.len() - i,
        {
            if self.entries[i].key == key {
                return Some(i);
            }
            i = i + 1;
        }
        None
    }
}

} // verus!

verus! {

/// Per-65536 thresholds standing for the configured small probabilities of
/// turning a hole into a zero value.
pub const ZERO_NODE_THRESHOLDS: [u32; 4] = [7, 66, 656, 1311];

/// Build a new graph into the fresh context `ctx`, one pass over a node
/// budget drawn from 20..40: pick an ending type uniformly from the catalog's
/// return types, then fill each hole in turn with a zero value (rarely), an
/// intrinsic call whose operands come from `get_ref_of_type`, a literal for
/// primitive types, or an input slot; any hole past the budget becomes an
/// input slot.  The result is a complete, well-formed graph whose sink has a
/// declared type.
pub fn generate_arm_codegen_ctx(
    ctx: &mut ARMSIMDCodegenCtx,
    intrinsics_by_type: &ARMIntrinsicsByType,
    all_intrinsic_return_types: &Vec<ARMSIMDType>,
)
    requires
        graph_wf(old(ctx)@),
        old(ctx)@.nodes.len() == 0,
        catalog_wf(intrinsics_by_type@),
        all_intrinsic_return_types@.len() > 0,
        list_covered(intrinsics_by_type@, all_intrinsic_return_types@),
    ensures
        graph_wf(final(ctx)@),
        graph_complete(final(ctx)@),
        entry_types_ok(final(ctx)@),
        1 <= final(ctx)@.nodes.len() <= 1322,
        node_declared_type(final(ctx)@.nodes[0]) is Some,
        no_tombstones(final(ctx)@),
        consts_referenced(final(ctx)@),
        produced_from_catalog(intrinsics_by_type@, final(ctx)@),
        final(ctx)@.nodes[0] is Produced,
        exists|i: int|
            0 <= i < intrinsics_by_type@.len() && #[trigger] usable_ending_entry(
                intrinsics_by_type@,
                i,
            ) && node_declared_type(final(ctx)@.nodes[0]) == Some(intrinsics_by_type@[i].key),
{
    let ghost cat = intrinsics_by_type@;
    let pick = ctx.rng.rand_size() % all_intrinsic_return_types.len();
    let ending_type = all_intrinsic_return_types[pick];
    let ghost epick = choose|i: int|
        0 <= i < cat.len() && usable_ending_entry(cat, i) && ending_type == cat[i].key;
    proof {
        assert(exists|i: int|
            0 <= i < cat.len() && usable_ending_entry(cat, i) && ending_type == cat[i].key);
    }

    let ghost start = ctx@;
    let _ = ctx.get_ref_of_type(ending_type, 0);
    proof {
        assert(ctx@.nodes.len() == 1);
        assert(ctx@.nodes[0] == ARMNodeV::Pending(ending_type));
        lemma_gen_step_preserved(start, ctx@, cat, ending_type);
    }

    let num_node_iterations: usize = 20 + (ctx.rng.rand_size() % 20);
    let zero_threshold: u32 = ZERO_NODE_THRESHOLDS[(ctx.rng.rand() % 4) as usize];

    let mut ii: usize = 0;
    while ii < num_node_iterations
        invariant
            cat == intrinsics_by_type@,
            catalog_wf(cat),
            num_node_iterations <= 39,
            0 <= epick < cat.len() && usable_ending_entry(cat, epick) && ending_type == cat[epick].key,
            ii <= num_node_iterations,
            ii == 0 ==> ctx@.nodes[0] == ARMNodeV::Pending(ending_type),
            graph_wf(ctx@),
            entry_types_ok(ctx@),
            ii <= ctx@.nodes.len(),
            ctx@.nodes.len() <= 1 + 33 * ii,
            forall|i: int| 0 <= i < ii && i < ctx@.nodes.len() ==> !node_is_pending(
                #[trigger] ctx@.nodes[i],
            ),
            ii >= 1 ==> ctx@.nodes[0] is Produced && node_declared_type(ctx@.nodes[0]) == Some(
                ending_type,
            ),
            ctx@.nodes.len() >= 1,
            no_tombstones(ctx@),
            consts_referenced(ctx@),
            produced_from_catalog(cat, ctx@),
        decreases num_node_iterations - ii,
    {
        if ii >= ctx.get_num_nodes() {
            let ghost before = ctx@;
            let _ = ctx.get_ref_of_type(ending_type, ii);
            proof {
                lemma_gen_step_preserved(before, ctx@, cat, ending_type);
            }
        }
        proof {
            assert(ii < ctx@.nodes.len());
        }
        let pending = ctx.get_type_of_pending_node(ii);
        if let Some(node_type) = pending {
            proof {
                assert(node_reg_type(ctx@.nodes[ii as int]) == Some(node_type));
            }
            let draw_zero = ii > 0 && (ctx.rng.rand() % 65536) < zero_threshold;
            if draw_zero {
                let ghost before = ctx@;
                ctx.mark_node_as_zero(ii);
                proof {
                    lemma_gen_update_preserved(before, ctx@, cat, ii as int);
                    lemma_gen_consts_carry(before, ctx@);
                }
            } else {
                match intrinsics_by_type.find_entry(node_type) {
                    Some(ei) => {
                        let list_len = intrinsics_by_type.entries[ei].intrinsics.len();
                        proof {
                            if ii == 0 {
                                assert(cat[ei as int].key == cat[epick].key);
                                if ei as int != epick {
                                    assert(false);
                                }
                                assert(list_len > 0);
                            }
                        }
                        if list_len == 0 {
                            // An empty catalog entry produces nothing; leave
                            // the hole for the entry pass below.
                            proof {
                                assert(ii != 0);
                            }
                            let ghost before = ctx@;
                            ctx.mark_node_as_entry(ii);
                            proof {
                                lemma_gen_update_preserved(before, ctx@, cat, ii as int);
                                lemma_gen_consts_carry(before, ctx@);
                            }
                        } else {
                            let which = ctx.rng.rand_size() % list_len;
                            let chosen = intrinsics_by_type.entries[ei].intrinsics[which].clone();
                            let ghost chosenv = chosen@;
                            proof {
                                assert(cat[ei as int].intrinsics[which as int] == chosenv);
                                assert(chosenv.return_type == node_type);
                                assert(chosenv.param_types.len() <= 32);
                            }
                            let ghost len0 = ctx@.nodes.len();
                            let mut references: Vec<usize> = Vec::new();
                            let num_params = chosen.param_types.len();
                            let mut p: usize = 0;
                            while p < num_params
                                invariant
                                    cat == intrinsics_by_type@,
                                    catalog_wf(cat),
                                    num_params == chosenv.param_types.len(),
                                    chosenv == chosen@,
                                    chosenv.param_types.len() <= 32,
                                    forall|q: int|
                                        0 <= q < chosenv.param_types.len() ==> match
                                            #[trigger] chosenv.param_types[q] {
                                            ARMSIMDType::ConstantIntImmediate(mn, mx) => mn <= mx,
                                            _ => arm_type_emit_ok(chosenv.param_types[q]),
                                        },
                                    p <= num_params,
                                    ii < 39,
                                    references@.len() == p as int,
                                    graph_wf(ctx@),
                                    entry_types_ok(ctx@),
                                    ii < ctx@.nodes.len(),
                                    len0 <= ctx@.nodes.len() <= len0 + p,
                                    len0 <= 1 + 33 * ii + 1,
                                    ctx@.nodes[ii as int] is Pending,
                                    ctx@.nodes[ii as int] == ARMNodeV::Pending(node_type),
                                    forall|i: int| 0 <= i < ii ==> !node_is_pending(
                                        #[trigger] ctx@.nodes[i],
                                    ),
                                    ii >= 1 ==> ctx@.nodes[0] is Produced && node_declared_type(
                                        ctx@.nodes[0],
                                    ) == Some(ending_type),
                                    ctx@.nodes.len() >= 1,
                                    no_tombstones(ctx@),
                                    produced_from_catalog(cat, ctx@),
                                    forall|i: int|
                                        0 <= i < ctx@.nodes.len() && (#[trigger] ctx@.nodes[i])
                                            is ConstantImmediate ==> (some_node_references(
                                            ctx@,
                                            i as usize,
                                        ) || references@.contains(i as usize)),
                                    forall|k: int|
                                        0 <= k < p ==> {
                                            let r = #[trigger] references@[k];
                                            &&& (r as int) < ctx@.nodes.len()
                                            &&& r > ii
                                            &&& node_reg_type(ctx@.nodes[r as int]) == Some(
                                                chosenv.param_types[k],
                                            )
                                        },
                                decreases num_params - p,
                            {
                                let param_type = chosen.param_types[p];
                                let ghost before = ctx@;
                                let ref_idx = ctx.get_ref_of_type(param_type, ii);
                                proof {
                                    if ctx@.nodes.len() == before.nodes.len() {
                                        assert(ref_idx > ii);
                                    } else {
                                        assert(ref_idx as int == before.nodes.len());
                                        assert(ref_idx >= ii + 1);
                                    }
                                    assert forall|k: int| 0 <= k < p implies {
                                        let r = #[trigger] references@[k];
                                        &&& (r as int) < ctx@.nodes.len()
                                        &&& r > ii
                                        &&& node_reg_type(ctx@.nodes[r as int]) == Some(
                                            chosenv.param_types[k],
                                        )
                                    } by {
                                        let r = references@[k];
                                        assert(ctx@.nodes[r as int] == before.nodes[r as int]);
                                    }
                                    assert(param_type == chosenv.param_types[p as int]);
                                    assert(match chosenv.param_types[p as int] {
                                        ARMSIMDType::ConstantIntImmediate(mn, mx) => mn <= mx,
                                        _ => arm_type_emit_ok(param_type),
                                    });
                                    assert forall|i: int|
                                        0 <= i < ctx@.nodes.len() implies match
                                        #[trigger] ctx@.nodes[i] {
                                        ARMNodeV::Entry(t) => arm_type_emit_ok(t),
                                        ARMNodeV::Pending(t) => arm_type_emit_ok(t),
                                        _ => true,
                                    } by {
                                        if i < before.nodes.len() {
                                            assert(ctx@.nodes[i] == before.nodes[i]);
                                            assert(entry_types_ok(before));
                                        } else {
                                            let v = choose|v: i32|
                                                ctx@.nodes =~= before.nodes.push(
                                                    fresh_node_for_type(param_type, v),
                                                );
                                            assert(ctx@.nodes[i] == fresh_node_for_type(
                                                param_type,
                                                v,
                                            ));
                                        }
                                    }
                                }
                                let ghost refs_before = references@;
                                references.push(ref_idx);
                                proof {
                                    lemma_gen_param_step(
                                        before,
                                        ctx@,
                                        cat,
                                        param_type,
                                        refs_before,
                                        references@,
                                        ref_idx,
                                    );
                                }
                                p = p + 1;
                            }
                            let ghost refsv = references@;
                            let node_intrinsic = ARMSIMDCodegenIntrinsic {
                                intrinsic: chosen,
                                references,
                            };
                            proof {
                                assert(node_intrinsic@.intrinsic == chosenv);
                                assert(node_intrinsic@.references == refsv);
                            }
                            let ghost before = ctx@;
                            ctx.produce_for_idx(ii, node_intrinsic);
                            proof {
                                assert(cat[ei as int].intrinsics[which as int] == chosenv);
                                assert(intrinsic_in_catalog(cat, chosenv));
                                lemma_gen_update_preserved(before, ctx@, cat, ii as int);
                                assert forall|i: int|
                                    0 <= i < ctx@.nodes.len() && (#[trigger] ctx@.nodes[i])
                                        is ConstantImmediate implies some_node_references(
                                    ctx@,
                                    i as usize,
                                ) by {
                                    assert(before.nodes[i] is ConstantImmediate);
                                    if some_node_references(before, i as usize) {
                                    } else {
                                        assert(refsv.contains(i as usize));
                                        let k = choose|k: int|
                                            0 <= k < refsv.len() && refsv[k] == i as usize;
                                        assert(ctx@.nodes[ii as int] == ARMNodeV::Produced(
                                            ARMSIMDCodegenIntrinsicV {
                                                intrinsic: chosenv,
                                                references: refsv,
                                            },
                                        ));
                                        assert(node_refs_contain(
                                            ctx@.nodes[ii as int],
                                            i as usize,
                                        ));
                                        assert(some_node_references(ctx@, i as usize));
                                    }
                                }
                            }
                        }
                    },
                    None => {
                        match node_type {
                            ARMSIMDType::Primitive(prim_type) => {
                                proof {
                                    if ii == 0 {
                                        assert(cat[epick].key == ending_type);
                                        assert(false);
                                    }
                                }
                                let ghost before = ctx@;
                                ctx.mark_node_as_immediate(ii, prim_type);
                                proof {
                                    lemma_gen_update_preserved(before, ctx@, cat, ii as int);
                                    lemma_gen_consts_carry(before, ctx@);
                                }
                            },
                            _ => {
                                // Only a load could produce this type; make it
                                // an input slot.
                                proof {
                                    if ii == 0 {
                                        assert(cat[epick].key == ending_type);
                                        assert(false);
                                    }
                                }
                                let ghost before = ctx@;
                                ctx.mark_node_as_entry(ii);
                                proof {
                                    lemma_gen_update_preserved(before, ctx@, cat, ii as int);
                                    lemma_gen_consts_carry(before, ctx@);
                                }
                            },
                        }
                    },
                }
            }
        }
        ii = ii + 1;
    }

    let mut jj: usize = num_node_iterations;
    let total = ctx.get_num_nodes();
    while jj < total
        invariant
            cat == intrinsics_by_type@,
            total == ctx@.nodes.len(),
            total <= 1322,
            num_node_iterations <= jj <= total,
            graph_wf(ctx@),
            entry_types_ok(ctx@),
            forall|i: int| 0 <= i < jj ==> !node_is_pending(#[trigger] ctx@.nodes[i]),
            0 <= epick < cat.len() && usable_ending_entry(cat, epick) && ending_type == cat[epick].key,
            ctx@.nodes[0] is Produced && node_declared_type(ctx@.nodes[0]) == Some(ending_type),
            ctx@.nodes.len() >= 1,
            no_tombstones(ctx@),
            consts_referenced(ctx@),
            produced_from_catalog(cat, ctx@),
        decreases total - jj,
    {
        if ctx.get_type_of_pending_node(jj).is_some() {
            let ghost before = ctx@;
            ctx.mark_node_as_entry(jj);
            proof {
                lemma_gen_update_preserved(before, ctx@, cat, jj as int);
                lemma_gen_consts_carry(before, ctx@);
            }
        }
        jj = jj + 1;
    }
    proof {
        assert(0 <= epick < cat.len() && usable_ending_entry(cat, epick)
            && node_declared_type(ctx@.nodes[0]) == Some(cat[epick].key));
    }
}

} // verus!

verus! {

/// Appending one fresh non-constant node (or reusing an existing one)
/// preserves the generator's structural guarantees.
proof fn lemma_gen_step_preserved(
    c0: crate::graph_arm::ARMCtxV,
    c1: crate::graph_arm::ARMCtxV,
    cat: Seq<ARMTypeIntrinsicsV>,
    t: ARMSIMDType,
)
    requires
        no_tombstones(c0),
        consts_referenced(c0),
        produced_from_catalog(cat, c0),
        !(t is ConstantIntImmediate),
        c1.nodes.len() >= c0.nodes.len(),
        forall|i: int| 0 <= i < c0.nodes.len() ==> c1.nodes[i] == c0.nodes[i],
        c1.nodes.len() == c0.nodes.len() || (c1.nodes.len() == c0.nodes.len() + 1 && exists|v: i32|
            c1.nodes =~= c0.nodes.push(fresh_node_for_type(t, v))),
    ensures
        no_tombstones(c1),
        consts_referenced(c1),
        produced_from_catalog(cat, c1),
{
    if c1.nodes.len() == c0.nodes.len() + 1 {
        let v = choose|v: i32| c1.nodes =~= c0.nodes.push(fresh_node_for_type(t, v));
        assert(c1.nodes[c0.nodes.len() as int] == fresh_node_for_type(t, v));
        assert(fresh_node_for_type(t, v) is Pending);
    }
    assert forall|i: int|
        0 <= i < c1.nodes.len() && (#[trigger] c1.nodes[i]) is ConstantImmediate implies
        some_node_references(c1, i as usize) by {
        assert(c0.nodes[i] is ConstantImmediate);
        assert(some_node_references(c0, i as usize));
        let j = choose|j: int|
            0 <= j < c0.nodes.len() && node_refs_contain(#[trigger] c0.nodes[j], i as usize);
        assert(node_refs_contain(c1.nodes[j], i as usize));
    }
}

/// Replacing a typed hole by a live non-constant node preserves the
/// generator's structural guarantees; a produced replacement must call a
/// catalog intrinsic.
proof fn lemma_gen_update_preserved(
    c0: crate::graph_arm::ARMCtxV,
    c1: crate::graph_arm::ARMCtxV,
    cat: Seq<ARMTypeIntrinsicsV>,
    idx: int,
)
    requires
        no_tombstones(c0),
        produced_from_catalog(cat, c0),
        0 <= idx < c0.nodes.len(),
        c0.nodes[idx] is Pending,
        c1.nodes =~= c0.nodes.update(idx, c1.nodes[idx]),
        !(c1.nodes[idx] is NoOp),
        (match c1.nodes[idx] {
            ARMNodeV::Produced(ci) => intrinsic_in_catalog(cat, ci.intrinsic),
            _ => true,
        }),
    ensures
        no_tombstones(c1),
        produced_from_catalog(cat, c1),
        forall|i: int|
            0 <= i < c0.nodes.len() && some_node_references(c0, i as usize)
                ==> #[trigger] some_node_references(c1, i as usize),
{
    assert forall|i: int|
        0 <= i < c0.nodes.len() && some_node_references(c0, i as usize) implies
        #[trigger] some_node_references(c1, i as usize) by {
        let j = choose|j: int|
            0 <= j < c0.nodes.len() && node_refs_contain(#[trigger] c0.nodes[j], i as usize);
        assert(j != idx);
        assert(node_refs_contain(c1.nodes[j], i as usize));
    }
}

/// After an update that neither adds nor removes constant nodes and keeps
/// every reference, the constants stay referenced.
proof fn lemma_gen_consts_carry(c0: crate::graph_arm::ARMCtxV, c1: crate::graph_arm::ARMCtxV)
    requires
        consts_referenced(c0),
        c1.nodes.len() == c0.nodes.len(),
        forall|i: int|
            0 <= i < c1.nodes.len() && (#[trigger] c1.nodes[i]) is ConstantImmediate
                ==> c0.nodes[i] is ConstantImmediate,
        forall|i: int|
            0 <= i < c0.nodes.len() && some_node_references(c0, i as usize)
                ==> #[trigger] some_node_references(c1, i as usize),
    ensures
        consts_referenced(c1),
{
}

/// One operand acquisition inside the parameter loop: the fresh or reused
/// node keeps the generator's guarantees, and every constant is referenced
/// or is now on the pending operand list.
proof fn lemma_gen_param_step(
    c0: crate::graph_arm::ARMCtxV,
    c1: crate::graph_arm::ARMCtxV,
    cat: Seq<ARMTypeIntrinsicsV>,
    t: ARMSIMDType,
    refs0: Seq<usize>,
    refs1: Seq<usize>,
    ref_idx: usize,
)
    requires
        no_tombstones(c0),
        produced_from_catalog(cat, c0),
        forall|i: int|
            0 <= i < c0.nodes.len() && (#[trigger] c0.nodes[i]) is ConstantImmediate ==> (
            some_node_references(c0, i as usize) || refs0.contains(i as usize)),
        c1.nodes.len() >= c0.nodes.len(),
        forall|i: int| 0 <= i < c0.nodes.len() ==> c1.nodes[i] == c0.nodes[i],
        c1.nodes.len() == c0.nodes.len() || (c1.nodes.len() == c0.nodes.len() + 1 && (ref_idx
            as int) == c0.nodes.len() && exists|v: i32|
            c1.nodes =~= c0.nodes.push(fresh_node_for_type(t, v))),
        refs1 =~= refs0.push(ref_idx),
    ensures
        no_tombstones(c1),
        produced_from_catalog(cat, c1),
        forall|i: int|
            0 <= i < c1.nodes.len() && (#[trigger] c1.nodes[i]) is ConstantImmediate ==> (
            some_node_references(c1, i as usize) || refs1.contains(i as usize)),
{
    if c1.nodes.len() == c0.nodes.len() + 1 {
        let v = choose|v: i32| c1.nodes =~= c0.nodes.push(fresh_node_for_type(t, v));
        assert(c1.nodes[c0.nodes.len() as int] == fresh_node_for_type(t, v));
    }
    assert forall|i: int|
        0 <= i < c1.nodes.len() && (#[trigger] c1.nodes[i]) is ConstantImmediate implies (
    some_node_references(c1, i as usize) || refs1.contains(i as usize)) by {
        if i < c0.nodes.len() {
            assert(c0.nodes[i] is ConstantImmediate);
            if some_node_references(c0, i as usize) {
                let j = choose|j: int|
                    0 <= j < c0.nodes.len() && node_refs_contain(
                        #[trigger] c0.nodes[j],
                        i as usize,
                    );
                assert(node_refs_contain(c1.nodes[j], i as usize));
                assert(some_node_references(c1, i as usize));
            } else {
                let k = choose|k: int| 0 <= k < refs0.len() && refs0[k] == i as usize;
                assert(refs1[k] == i as usize);
                assert(refs1.contains(i as usize));
            }
        } else {
            assert(i == c0.nodes.len());
            assert(refs1.last() == ref_idx);
            assert(refs1.contains(i as usize));
        }
    }
}

} // verus!
