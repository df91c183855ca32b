//! The symbolic program graph for the x86 SIMD flavor.
//!
//! A graph is an ordered sequence of nodes addressed by index; index 0 is the
//! return node and every operand reference points at a strictly larger index,
//! so later indices are earlier in program order.  Beside the nodes the graph
//! keeps a reuse map from each type to the indices of the live nodes that
//! produce that type.
use vstd::prelude::*;

use crate::rand::Rand;
use crate::x86_types::{
    X86BaseType, X86SIMDEType, X86SIMDType, X86SIMDIntrinsic, X86SIMDIntrinsicV,
    spec_underlying_simd_type, get_underlying_simd_type,
};

verus! {

/// An intrinsic call node: the catalog entry plus one operand index per
/// declared parameter.
#[derive(Debug)]
pub struct X86SIMDCodegenIntrinsic {
    pub intrinsic: X86SIMDIntrinsic,
    pub references: Vec<usize>,
}

/// Mathematical image of an intrinsic call node.
pub struct X86SIMDCodegenIntrinsicV {
    pub intrinsic: X86SIMDIntrinsicV,
    pub references: Seq<usize>,
}

impl View for X86SIMDCodegenIntrinsic {
    type V = X86SIMDCodegenIntrinsicV;

    open spec fn view(&self) -> X86SIMDCodegenIntrinsicV {
        X86SIMDCodegenIntrinsicV { intrinsic: self.intrinsic@, references: self.references@ }
    }
}

impl Clone for X86SIMDCodegenIntrinsic {
    fn clone(&self) -> (r: Self)
        ensures
            r@ == self@,
    {
        let mut references: Vec<usize> = Vec::new();
        let mut i: usize = 0;
        while i < self.references.len()
            invariant
                i <= self.references.len(),
                references@ == self.references@.subrange(0, i as int),
            decreases self.references.len() - i,
        {
            references.push(self.references[i]);
            i = i + 1;
        }
        proof {
            assert(references@ =~= self.references@);
        }
        X86SIMDCodegenIntrinsic { intrinsic: self.intrinsic.clone(), references }
    }
}

/// A mask used by the opt-bait variant of the pipeline; kept as data only,
/// the main loop does not generate such nodes.
#[derive(Debug)]
pub struct X86SIMDOptBaitNode {
    pub intrinsic: X86SIMDIntrinsic,
    pub node_idx: usize,
    pub mask: Vec<u8>,
}

/// One node of the graph.  A `ConstantImmediate` node records the base type,
/// the permitted bit width, and the drawn value.
#[derive(Debug)]
pub enum X86SIMDCodegenNode {
    Immediate(X86BaseType, i64),
    ConstantImmediate(X86BaseType, u32, u32),
    Entry(X86SIMDType),
    Zero(X86SIMDType),
    Produced(X86SIMDCodegenIntrinsic),
    Pending(X86SIMDType),
    NoOp,
}

/// Mathematical image of a node.
pub enum X86NodeV {
    Immediate(X86BaseType, i64),
    ConstantImmediate(X86BaseType, u32, u32),
    Entry(X86SIMDType),
    Zero(X86SIMDType),
    Produced(X86SIMDCodegenIntrinsicV),
    Pending(X86SIMDType),
    NoOp,
}

impl View for X86SIMDCodegenNode {
    type V = X86NodeV;

    open spec fn view(&self) -> X86NodeV {
        match self {
            X86SIMDCodegenNode::Immediate(b, v) => X86NodeV::Immediate(*b, *v),
            X86SIMDCodegenNode::ConstantImmediate(b, w, v) => X86NodeV::ConstantImmediate(*b, *w, *v),
            X86SIMDCodegenNode::Entry(t) => X86NodeV::Entry(*t),
            X86SIMDCodegenNode::Zero(t) => X86NodeV::Zero(*t),
            X86SIMDCodegenNode::Produced(ci) => X86NodeV::Produced(ci@),
            X86SIMDCodegenNode::Pending(t) => X86NodeV::Pending(*t),
            X86SIMDCodegenNode::NoOp => X86NodeV::NoOp,
        }
    }
}

impl Clone for X86SIMDCodegenNode {
    fn clone(&self) -> (r: Self)
        ensures
            r@ == self@,
    {
        match self {
            X86SIMDCodegenNode::Immediate(b, v) => X86SIMDCodegenNode::Immediate(*b, *v),
            X86SIMDCodegenNode::ConstantImmediate(b, w, v) => X86SIMDCodegenNode::ConstantImmediate(
                *b,
                *w,
                *v,
            ),
            X86SIMDCodegenNode::Entry(t) => X86SIMDCodegenNode::Entry(*t),
            X86SIMDCodegenNode::Zero(t) => X86SIMDCodegenNode::Zero(*t),
            X86SIMDCodegenNode::Produced(ci) => X86SIMDCodegenNode::Produced(ci.clone()),
            X86SIMDCodegenNode::Pending(t) => X86SIMDCodegenNode::Pending(*t),
            X86SIMDCodegenNode::NoOp => X86SIMDCodegenNode::NoOp,
        }
    }
}

/// One reuse-map bucket: the indices of the live nodes registered under `key`.
#[derive(Debug)]
pub struct X86TypeBucket {
    pub key: X86SIMDType,
    pub indices: Vec<usize>,
}

/// Mathematical image of a bucket.
pub struct X86TypeBucketV {
    pub key: X86SIMDType,
    pub indices: Seq<usize>,
}

impl View for X86TypeBucket {
    type V = X86TypeBucketV;

    open spec fn view(&self) -> X86TypeBucketV {
        X86TypeBucketV { key: self.key, indices: self.indices@ }
    }
}

/// The x86 symbolic program graph under construction or minimization.
pub struct X86SIMDCodegenCtx {
    /// Index 0 is the sink; operand references point forward (to larger
    /// indices), which are earlier in program order.
    pub intrinsics_sequence: Vec<X86SIMDCodegenNode>,
    /// For a given type, all node indices producing that type.
    pub type_to_ref_idx: Vec<X86TypeBucket>,
    /// Generator state; not part of the graph's mathematical image.
    pub rng: Rand,
}

/// Mathematical image of the graph.
pub struct X86CtxV {
    pub nodes: Seq<X86NodeV>,
    pub buckets: Seq<X86TypeBucketV>,
}

impl View for X86SIMDCodegenCtx {
    type V = X86CtxV;

    open spec fn view(&self) -> X86CtxV {
        X86CtxV {
            nodes: Seq::new(self.intrinsics_sequence@.len(), |i: int| self.intrinsics_sequence@[i]@),
            buckets: Seq::new(self.type_to_ref_idx@.len(), |i: int| self.type_to_ref_idx@[i]@),
        }
    }
}

/// The type a node is registered under in the reuse map, `None` for a
/// tombstone.  Mask-tagged vector types are collapsed to their underlying
/// type, exactly as the registration code collapses them.
pub open spec fn node_reg_type(n: X86NodeV) -> Option<X86SIMDType> {
    match n {
        X86NodeV::Pending(t) => Some(spec_underlying_simd_type(t)),
        X86NodeV::Entry(t) => Some(spec_underlying_simd_type(t)),
        X86NodeV::Zero(t) => Some(spec_underlying_simd_type(t)),
        X86NodeV::Immediate(b, _) => Some(X86SIMDType::Primitive(b)),
        X86NodeV::ConstantImmediate(b, w, _) => Some(
            X86SIMDType::ConstantImmediate(b, w as i32),
        ),
        X86NodeV::Produced(ci) => Some(spec_underlying_simd_type(ci.intrinsic.return_type)),
        X86NodeV::NoOp => None,
    }
}

pub open spec fn node_is_noop(n: X86NodeV) -> bool {
    n is NoOp
}

pub open spec fn node_is_pending(n: X86NodeV) -> bool {
    n is Pending
}

pub open spec fn node_is_produced(n: X86NodeV) -> bool {
    n is Produced
}

/// Entry `k` of bucket `i` names a node registered under the bucket's key.
pub open spec fn bucket_entry_ok(c: X86CtxV, i: int, k: int) -> bool {
    let idx = c.buckets[i].indices[k];
    &&& (idx as int) < c.nodes.len()
    &&& node_reg_type(c.nodes[idx as int]) == Some(c.buckets[i].key)
}

/// Bucket `i` is internally consistent: a stable key, valid distinct entries.
pub open spec fn bucket_wf(c: X86CtxV, i: int) -> bool {
    &&& spec_underlying_simd_type(c.buckets[i].key) == c.buckets[i].key
    &&& forall|k: int| 0 <= k < c.buckets[i].indices.len() ==> #[trigger] bucket_entry_ok(c, i, k)
    &&& forall|k1: int, k2: int|
        0 <= k1 < k2 < c.buckets[i].indices.len() ==> c.buckets[i].indices[k1]
            != c.buckets[i].indices[k2]
}

/// Node `n` appears in the bucket of its registration type.
pub open spec fn node_registered(c: X86CtxV, n: int) -> bool {
    exists|i: int|
        0 <= i < c.buckets.len() && Some(#[trigger] c.buckets[i].key) == node_reg_type(c.nodes[n])
            && c.buckets[i].indices.contains(n as usize)
}

/// Reuse-map consistency: for every type, the map lists exactly the indices
/// of the live nodes registered under that type, each once.
pub open spec fn buckets_wf(c: X86CtxV) -> bool {
    &&& forall|i: int, j: int|
        0 <= i < j < c.buckets.len() ==> (#[trigger] c.buckets[i].key) != (
        #[trigger] c.buckets[j].key)
    &&& forall|i: int| 0 <= i < c.buckets.len() ==> #[trigger] bucket_wf(c, i)
    &&& forall|n: int|
        0 <= n < c.nodes.len() && node_reg_type(#[trigger] c.nodes[n]) is Some ==> node_registered(
            c,
            n,
        )
}

/// A produced node references only later, live nodes whose registration type
/// matches the parameter type it feeds, one reference per parameter.
pub open spec fn produced_node_wf(c: X86CtxV, idx: int) -> bool {
    c.nodes[idx] matches X86NodeV::Produced(ci) ==> {
        &&& ci.references.len() == ci.intrinsic.param_types.len()
        &&& forall|k: int|
            0 <= k < ci.references.len() ==> {
                let r = #[trigger] ci.references[k];
                &&& (r as int) < c.nodes.len()
                &&& r > idx
                &&& node_reg_type(c.nodes[r as int]) == Some(
                    spec_underlying_simd_type(ci.intrinsic.param_types[k]),
                )
            }
    }
}

/// Every constant-immediate node's value fits its declared bit width.
pub open spec fn const_imm_node_wf(c: X86CtxV, idx: int) -> bool {
    c.nodes[idx] matches X86NodeV::ConstantImmediate(b, w, v) ==> {
        &&& w <= 31
        &&& v < (1u32 << w)
    }
}

pub open spec fn node_wf(c: X86CtxV, idx: int) -> bool {
    &&& produced_node_wf(c, idx)
    &&& const_imm_node_wf(c, idx)
}

/// Well-formedness of the whole graph: the reuse map is consistent, every
/// node is locally consistent, and the sink at index 0 is never a tombstone.
pub open spec fn graph_wf(c: X86CtxV) -> bool {
    &&& buckets_wf(c)
    &&& forall|idx: int| 0 <= idx < c.nodes.len() ==> #[trigger] node_wf(c, idx)
    &&& c.nodes.len() > 0 ==> !node_is_noop(c.nodes[0])
}

/// Generation has finished: no typed hole remains.
pub open spec fn graph_complete(c: X86CtxV) -> bool {
    forall|idx: int| 0 <= idx < c.nodes.len() ==> !node_is_pending(#[trigger] c.nodes[idx])
}

/// How many nodes are not tombstones; the minimizer strictly decreases this.
pub open spec fn count_non_noop(nodes: Seq<X86NodeV>) -> nat
    decreases nodes.len(),
{
    if nodes.len() == 0 {
        0
    } else {
        count_non_noop(nodes.drop_last()) + if node_is_noop(nodes.last()) {
            0nat
        } else {
            1nat
        }
    }
}

} // verus!

verus! {

/// The declared type of a node that can stand as the return node.
pub open spec fn node_declared_type(n: X86NodeV) -> Option<X86SIMDType> {
    match n {
        X86NodeV::Produced(ci) => Some(ci.intrinsic.return_type),
        X86NodeV::Entry(t) => Some(t),
        X86NodeV::Zero(t) => Some(t),
        _ => None,
    }
}

/// Node `j` does not hold an operand reference to `target`.
pub open spec fn node_has_no_ref_to(n: X86NodeV, target: usize) -> bool {
    match n {
        X86NodeV::Produced(ci) => forall|k: int|
            0 <= k < ci.references.len() ==> (#[trigger] ci.references[k]) != target,
        _ => true,
    }
}

/// No produced node holds a reference to `target`.
pub open spec fn no_refs_to(c: X86CtxV, target: usize) -> bool {
    forall|j: int| 0 <= j < c.nodes.len() ==> node_has_no_ref_to(#[trigger] c.nodes[j], target)
}

/// Node `n` holds an operand reference to `target`.
pub open spec fn node_refs_contain(n: X86NodeV, target: usize) -> bool {
    match n {
        X86NodeV::Produced(ci) => exists|k: int|
            0 <= k < ci.references.len() && (#[trigger] ci.references[k]) == target,
        _ => false,
    }
}

/// Some produced node feeds on node `t`.
pub open spec fn some_node_references(c: X86CtxV, t: usize) -> bool {
    exists|j: int| 0 <= j < c.nodes.len() && node_refs_contain(#[trigger] c.nodes[j], t)
}

/// The graph holds no tombstones: true of every freshly generated graph.
pub open spec fn no_tombstones(c: X86CtxV) -> bool {
    forall|i: int| 0 <= i < c.nodes.len() ==> !node_is_noop(#[trigger] c.nodes[i])
}

/// Every constant node exists to feed a constant-immediate parameter: some
/// produced node references it.
pub open spec fn consts_referenced(c: X86CtxV) -> bool {
    forall|i: int|
        0 <= i < c.nodes.len() && (#[trigger] c.nodes[i]) is ConstantImmediate
            ==> some_node_references(c, i as usize)
}

impl X86SIMDCodegenCtx {
    /// A fresh, empty graph seeded for generation.
    pub fn new(seed: u64) -> (r: X86SIMDCodegenCtx)
        ensures
            r@.nodes.len() == 0,
            r@.buckets.len() == 0,
            graph_wf(r@),
            graph_complete(r@),
    {
        X86SIMDCodegenCtx {
            intrinsics_sequence: Vec::new(),
            type_to_ref_idx: Vec::new(),
            rng: Rand::new(seed),
        }
    }

    pub fn get_num_nodes(&self) -> (r: usize)
        ensures
            r == self@.nodes.len(),
    {
        self.intrinsics_sequence.len()
    }

    /// Where the reuse map keeps the bucket for `key`, if anywhere.
    fn find_bucket(&self, key: X86SIMDType) -> (r: Option<usize>)
        ensures
            match r {
                Some(i) => i < self@.buckets.len() && self@.buckets[i as int].key == key,
                None => forall|i: int|
                    0 <= i < self@.buckets.len() ==> (#[trigger] self@.buckets[i].key) != key,
            },
    {
        let mut i: usize = 0;
        while i < self.type_to_ref_idx.len()
            invariant
                i <= self@.buckets.len(),
                forall|j: int| 0 <= j < i ==> (#[trigger] self@.buckets[j].key) != key,
            decreases self@.buckets.len() - i,
        {
            if self.type_to_ref_idx[i].key == key {
                return Some(i);
            }
            i = i + 1;
        }
        None
    }

    /// The type of the typed hole at `node_idx`, if that node is still a hole.
    pub fn get_type_of_pending_node(&self, node_idx: usize) -> (r: Option<X86SIMDType>)
        requires
            node_idx < self@.nodes.len(),
        ensures
            r == (match self@.nodes[node_idx as int] {
                X86NodeV::Pending(t) => Some(t),
                _ => None::<X86SIMDType>,
            }),
    {
        match &self.intrinsics_sequence[node_idx] {
            X86SIMDCodegenNode::Pending(t) => Some(*t),
            _ => None,
        }
    }

    /// The intrinsic call at `idx`, if that node has been produced.
    pub fn maybe_get_produced_node(&self, idx: usize) -> (r: Option<&X86SIMDCodegenIntrinsic>)
        requires
            idx < self@.nodes.len(),
        ensures
            match r {
                Some(ci) => self@.nodes[idx as int] == X86NodeV::Produced(ci@),
                None => !node_is_produced(self@.nodes[idx as int]),
            },
    {
        match &self.intrinsics_sequence[idx] {
            X86SIMDCodegenNode::Produced(ci) => Some(ci),
            _ => None,
        }
    }

    pub fn is_node_produced(&self, idx: usize) -> (r: bool)
        requires
            idx < self@.nodes.len(),
        ensures
            r == node_is_produced(self@.nodes[idx as int]),
    {
        match &self.intrinsics_sequence[idx] {
            X86SIMDCodegenNode::Produced(_) => true,
            _ => false,
        }
    }

    /// The declared type of a produced, entry, or zero node.
    pub fn get_type_of_node(&self, node_idx: usize) -> (r: X86SIMDType)
        requires
            node_idx < self@.nodes.len(),
            node_declared_type(self@.nodes[node_idx as int]) is Some,
        ensures
            Some(r) == node_declared_type(self@.nodes[node_idx as int]),
    {
        match &self.intrinsics_sequence[node_idx] {
            X86SIMDCodegenNode::Produced(ci) => ci.intrinsic.return_type,
            X86SIMDCodegenNode::Entry(t) => *t,
            X86SIMDCodegenNode::Zero(t) => *t,
            _ => {
                proof {
                    assert(false);
                }
                X86SIMDType::Primitive(X86BaseType::Void)
            },
        }
    }

    /// Index 0 is the sink.
    pub fn get_return_node_idx(&self) -> (r: usize)
        ensures
            r == 0,
    {
        0
    }

    /// The declared type of the return node.
    pub fn get_return_type(&self) -> (r: X86SIMDType)
        requires
            self@.nodes.len() > 0,
            node_declared_type(self@.nodes[0]) is Some,
        ensures
            Some(r) == node_declared_type(self@.nodes[0]),
    {
        self.get_type_of_node(0)
    }

    /// How many produced (intrinsic call) nodes the graph holds.
    pub fn get_num_produced_nodes(&self) -> (r: usize)
        ensures
            r <= self@.nodes.len(),
    {
        let mut count: usize = 0;
        let mut i: usize = 0;
        while i < self.intrinsics_sequence.len()
            invariant
                i <= self@.nodes.len(),
                count <= i,
            decreases self@.nodes.len() - i,
        {
            if self.is_node_produced(i) {
                count = count + 1;
            }
            i = i + 1;
        }
        count
    }
}

} // verus!

verus! {

/// Replacing a node by one with the same registration type, itself locally
/// well-formed, keeps the whole graph well-formed.
proof fn lemma_wf_after_reg_preserving_update(c0: X86CtxV, c1: X86CtxV, idx: int)
    requires
        graph_wf(c0),
        0 <= idx < c0.nodes.len(),
        c1.nodes =~= c0.nodes.update(idx, c1.nodes[idx]),
        c1.buckets == c0.buckets,
        node_reg_type(c1.nodes[idx]) == node_reg_type(c0.nodes[idx]),
        node_wf(c1, idx),
    ensures
        graph_wf(c1),
{
    assert(c1.nodes.len() == c0.nodes.len());
    // Every bucket stays consistent: registration types are unchanged.
    assert forall|i: int| 0 <= i < c1.buckets.len() implies #[trigger] bucket_wf(c1, i) by {
        assert(bucket_wf(c0, i));
        assert forall|k: int| 0 <= k < c1.buckets[i].indices.len() implies #[trigger] bucket_entry_ok(
            c1,
            i,
            k,
        ) by {
            assert(bucket_entry_ok(c0, i, k));
        }
    }
    // Every registered node stays registered.
    assert forall|n: int|
        0 <= n < c1.nodes.len() && node_reg_type(#[trigger] c1.nodes[n]) is Some implies
        node_registered(c1, n) by {
        assert(node_reg_type(c1.nodes[n]) == node_reg_type(c0.nodes[n]));
        assert(node_registered(c0, n));
        let i = choose|i: int|
            0 <= i < c0.buckets.len() && Some(#[trigger] c0.buckets[i].key) == node_reg_type(
                c0.nodes[n],
            ) && c0.buckets[i].indices.contains(n as usize);
        assert(0 <= i < c1.buckets.len() && Some(c1.buckets[i].key) == node_reg_type(c1.nodes[n])
            && c1.buckets[i].indices.contains(n as usize));
    }
    // Every node stays locally well-formed.
    assert forall|j: int| 0 <= j < c1.nodes.len() implies #[trigger] node_wf(c1, j) by {
        if j != idx {
            assert(node_wf(c0, j));
            assert(c1.nodes[j] == c0.nodes[j]);
            if c1.nodes[j] is Produced {
                let ci = c1.nodes[j]->Produced_0;
                assert forall|k: int| 0 <= k < ci.references.len() implies {
                    let r = #[trigger] ci.references[k];
                    &&& (r as int) < c1.nodes.len()
                    &&& r > j
                    &&& node_reg_type(c1.nodes[r as int]) == Some(
                        spec_underlying_simd_type(ci.intrinsic.param_types[k]),
                    )
                } by {
                    let r = ci.references[k];
                    assert(produced_node_wf(c0, j));
                    assert(node_reg_type(c1.nodes[r as int]) == node_reg_type(c0.nodes[r as int]));
                }
            }
        }
    }
}

impl X86SIMDCodegenCtx {
    /// Turn the typed hole at `node_idx` into an input slot of the same type.
    pub fn mark_node_as_entry(&mut self, node_idx: usize)
        requires
            graph_wf(old(self)@),
            node_idx < old(self)@.nodes.len(),
            old(self)@.nodes[node_idx as int] is Pending,
        ensures
            final(self)@.nodes =~= old(self)@.nodes.update(
                node_idx as int,
                X86NodeV::Entry(old(self)@.nodes[node_idx as int]->Pending_0),
            ),
            final(self)@.buckets == old(self)@.buckets,
            graph_wf(final(self)@),
    {
        let t = match &self.intrinsics_sequence[node_idx] {
            X86SIMDCodegenNode::Pending(t) => *t,
            _ => {
                proof {
                    assert(false);
                }
                X86SIMDType::Primitive(X86BaseType::Void)
            },
        };
        self.intrinsics_sequence[node_idx] = X86SIMDCodegenNode::Entry(t);
        proof {
            assert(self@.buckets =~= old(self)@.buckets);
            lemma_wf_after_reg_preserving_update(old(self)@, self@, node_idx as int);
        }
    }

    /// Turn the typed hole at `node_idx` into the zero value of its type.
    pub fn mark_node_as_zero(&mut self, node_idx: usize)
        requires
            graph_wf(old(self)@),
            node_idx < old(self)@.nodes.len(),
            old(self)@.nodes[node_idx as int] is Pending,
        ensures
            final(self)@.nodes =~= old(self)@.nodes.update(
                node_idx as int,
                X86NodeV::Zero(old(self)@.nodes[node_idx as int]->Pending_0),
            ),
            final(self)@.buckets == old(self)@.buckets,
            graph_wf(final(self)@),
    {
        let t = match &self.intrinsics_sequence[node_idx] {
            X86SIMDCodegenNode::Pending(t) => *t,
            _ => {
                proof {
                    assert(false);
                }
                X86SIMDType::Primitive(X86BaseType::Void)
            },
        };
        self.intrinsics_sequence[node_idx] = X86SIMDCodegenNode::Zero(t);
        proof {
            assert(self@.buckets =~= old(self)@.buckets);
            lemma_wf_after_reg_preserving_update(old(self)@, self@, node_idx as int);
        }
    }

    /// Turn the typed hole at `node_idx`, which must hold a primitive of type
    /// `imm_type`, into a literal with a default payload.
    pub fn mark_node_as_immediate(&mut self, node_idx: usize, imm_type: X86BaseType)
        requires
            graph_wf(old(self)@),
            node_idx < old(self)@.nodes.len(),
            old(self)@.nodes[node_idx as int] == X86NodeV::Pending(
                X86SIMDType::Primitive(imm_type),
            ),
        ensures
            final(self)@.nodes =~= old(self)@.nodes.update(
                node_idx as int,
                X86NodeV::Immediate(imm_type, 0),
            ),
            final(self)@.buckets == old(self)@.buckets,
            graph_wf(final(self)@),
    {
        self.intrinsics_sequence[node_idx] = X86SIMDCodegenNode::Immediate(imm_type, 0);
        proof {
            assert(self@.buckets =~= old(self)@.buckets);
            assert(spec_underlying_simd_type(X86SIMDType::Primitive(imm_type))
                == X86SIMDType::Primitive(imm_type));
            lemma_wf_after_reg_preserving_update(old(self)@, self@, node_idx as int);
        }
    }

    /// Fill the typed hole at `idx` with an intrinsic call whose operands are
    /// already-registered later nodes of the right types.
    pub fn produce_for_idx(&mut self, idx: usize, node_intrinsic: X86SIMDCodegenIntrinsic)
        requires
            graph_wf(old(self)@),
            idx < old(self)@.nodes.len(),
            old(self)@.nodes[idx as int] is Pending,
            spec_underlying_simd_type(node_intrinsic@.intrinsic.return_type)
                == spec_underlying_simd_type(old(self)@.nodes[idx as int]->Pending_0),
            node_intrinsic@.references.len() == node_intrinsic@.intrinsic.param_types.len(),
            forall|k: int|
                0 <= k < node_intrinsic@.references.len() ==> {
                    let r = #[trigger] node_intrinsic@.references[k];
                    &&& (r as int) < old(self)@.nodes.len()
                    &&& r > idx
                    &&& node_reg_type(old(self)@.nodes[r as int]) == Some(
                        spec_underlying_simd_type(node_intrinsic@.intrinsic.param_types[k]),
                    )
                },
        ensures
            final(self)@.nodes =~= old(self)@.nodes.update(
                idx as int,
                X86NodeV::Produced(node_intrinsic@),
            ),
            final(self)@.buckets == old(self)@.buckets,
            graph_wf(final(self)@),
    {
        let ghost civ = node_intrinsic@;
        self.intrinsics_sequence[idx] = X86SIMDCodegenNode::Produced(node_intrinsic);
        proof {
            assert(self@.buckets =~= old(self)@.buckets);
            assert(self@.nodes =~= old(self)@.nodes.update(idx as int, X86NodeV::Produced(civ)));
            assert forall|k: int| 0 <= k < civ.references.len() implies {
                let r = #[trigger] civ.references[k];
                &&& (r as int) < self@.nodes.len()
                &&& r > idx
                &&& node_reg_type(self@.nodes[r as int]) == Some(
                    spec_underlying_simd_type(civ.intrinsic.param_types[k]),
                )
            } by {
                let r = civ.references[k];
                assert(node_reg_type(self@.nodes[r as int]) == node_reg_type(
                    old(self)@.nodes[r as int],
                ));
            }
            assert(node_wf(self@, idx as int));
            lemma_wf_after_reg_preserving_update(old(self)@, self@, idx as int);
        }
    }
}

} // verus!

verus! {

impl X86SIMDCodegenCtx {
    /// Where `val` sits inside bucket `bi`.
    fn position_in_bucket(&self, bi: usize, val: usize) -> (r: usize)
        requires
            bi < self@.buckets.len(),
            self@.buckets[bi as int].indices.contains(val),
        ensures
            r < self@.buckets[bi as int].indices.len(),
            self@.buckets[bi as int].indices[r as int] == val,
    {
        let ghost indices = self@.buckets[bi as int].indices;
        let mut k: usize = 0;
        while k < self.type_to_ref_idx[bi].indices.len()
            invariant
                bi < self@.buckets.len(),
                indices == self@.buckets[bi as int].indices,
                indices.contains(val),
                k <= indices.len(),
                forall|j: int| 0 <= j < k ==> indices[j] != val,
            decreases indices.len() - k,
        {
            if self.type_to_ref_idx[bi].indices[k] == val {
                return k;
            }
            k = k + 1;
        }
        proof {
            let witness = choose|j: int| 0 <= j < indices.len() && indices[j] == val;
            assert(false);
        }
        0
    }

    /// Blank out the produced or zero node at `node_idx`: deregister it from
    /// the reuse map and leave a tombstone.  An entry node is left alone, so
    /// that the layout of the input buffers does not change under a caller.
    pub fn mark_node_as_noop(&mut self, node_idx: usize)
        requires
            graph_wf(old(self)@),
            node_idx < old(self)@.nodes.len(),
            old(self)@.nodes[node_idx as int] is Produced || old(self)@.nodes[node_idx as int]
                is Zero || old(self)@.nodes[node_idx as int] is Entry,
            !(old(self)@.nodes[node_idx as int] is Entry) ==> node_idx != 0 && no_refs_to(
                old(self)@,
                node_idx,
            ),
        ensures
            graph_wf(final(self)@),
            old(self)@.nodes[node_idx as int] is Entry ==> final(self)@ == old(self)@,
            !(old(self)@.nodes[node_idx as int] is Entry) ==> final(self)@.nodes =~= old(
                self,
            )@.nodes.update(node_idx as int, X86NodeV::NoOp),
            !(old(self)@.nodes[node_idx as int] is Entry) ==> exists|bi: int, pos: int|
                {
                    &&& 0 <= bi < old(self)@.buckets.len()
                    &&& Some(old(self)@.buckets[bi].key) == node_reg_type(
                        old(self)@.nodes[node_idx as int],
                    )
                    &&& 0 <= pos < old(self)@.buckets[bi].indices.len()
                    &&& (#[trigger] old(self)@.buckets[bi].indices[pos]) == node_idx
                    &&& final(self)@.buckets.len() == old(self)@.buckets.len()
                    &&& (forall|i: int|
                        0 <= i < old(self)@.buckets.len() && i != bi ==> final(self)@.buckets[i]
                            == old(self)@.buckets[i])
                    &&& final(self)@.buckets[bi].key == old(self)@.buckets[bi].key
                    &&& final(self)@.buckets[bi].indices =~= old(self)@.buckets[bi].indices.remove(
                        pos,
                    )
                },
    {
        let is_entry = match &self.intrinsics_sequence[node_idx] {
            X86SIMDCodegenNode::Entry(_) => true,
            _ => false,
        };
        if is_entry {
            proof {
                assert(final(self)@ =~= old(self)@);
                assert(self@.nodes =~= old(self)@.nodes);
                assert(self@.buckets =~= old(self)@.buckets);
            }
            return ;
        }
        let key = match &self.intrinsics_sequence[node_idx] {
            X86SIMDCodegenNode::Produced(ci) => get_underlying_simd_type(
                ci.intrinsic.return_type,
            ),
            X86SIMDCodegenNode::Zero(t) => get_underlying_simd_type(*t),
            _ => {
                proof {
                    assert(false);
                }
                X86SIMDType::Primitive(X86BaseType::Void)
            },
        };
        proof {
            assert(node_reg_type(self@.nodes[node_idx as int]) == Some(key));
            assert(node_registered(self@, node_idx as int));
        }
        let bi = match self.find_bucket(key) {
            Some(bi) => bi,
            None => {
                proof {
                    let i = choose|i: int|
                        0 <= i < self@.buckets.len() && Some(#[trigger] self@.buckets[i].key)
                            == node_reg_type(self@.nodes[node_idx as int])
                            && self@.buckets[i].indices.contains(node_idx);
                    assert(false);
                }
                0
            },
        };
        proof {
            let i = choose|i: int|
                0 <= i < self@.buckets.len() && Some(#[trigger] self@.buckets[i].key)
                    == node_reg_type(self@.nodes[node_idx as int]) && self@.buckets[
                    i
                ].indices.contains(node_idx);
            if i != bi as int {
                assert(self@.buckets[i].key == self@.buckets[bi as int].key);
                assert(false);
            }
            assert(self@.buckets[bi as int].indices.contains(node_idx));
        }
        let pos = self.position_in_bucket(bi, node_idx);
        let ghost c0 = self@;
        self.type_to_ref_idx[bi].indices.remove(pos);
        let ghost c1 = self@;
        self.intrinsics_sequence[node_idx] = X86SIMDCodegenNode::NoOp;
        let ghost c2 = self@;
        proof {
            assert(c0.nodes.len() <= usize::MAX) by {
                vstd::std_specs::vec::axiom_spec_len(&old(self).intrinsics_sequence);
            }
            lemma_noop_removal_wf(c0, c2, node_idx as int, bi as int, pos as int);
            assert(c2.nodes =~= c0.nodes.update(node_idx as int, X86NodeV::NoOp));
            assert({
                &&& (bi as int) < c0.buckets.len()
                &&& Some(c0.buckets[bi as int].key) == node_reg_type(c0.nodes[node_idx as int])
                &&& (pos as int) < c0.buckets[bi as int].indices.len()
                &&& c0.buckets[bi as int].indices[pos as int] == node_idx
                &&& c2.buckets.len() == c0.buckets.len()
                &&& (forall|i: int|
                    0 <= i < c0.buckets.len() && i != bi as int ==> c2.buckets[i] == c0.buckets[i])
                &&& c2.buckets[bi as int].key == c0.buckets[bi as int].key
                &&& c2.buckets[bi as int].indices =~= c0.buckets[bi as int].indices.remove(
                    pos as int,
                )
            });
        }
    }
}

/// Removing a node's bucket entry and blanking the node keeps the graph
/// well-formed, provided nothing references the node.
proof fn lemma_noop_removal_wf(c0: X86CtxV, c2: X86CtxV, idx: int, bi: int, pos: int)
    requires
        graph_wf(c0),
        c0.nodes.len() <= usize::MAX,
        0 <= idx < c0.nodes.len(),
        c0.nodes[idx] is Produced || c0.nodes[idx] is Zero,
        idx != 0,
        no_refs_to(c0, idx as usize),
        0 <= bi < c0.buckets.len(),
        Some(c0.buckets[bi].key) == node_reg_type(c0.nodes[idx]),
        0 <= pos < c0.buckets[bi].indices.len(),
        c0.buckets[bi].indices[pos] == idx as usize,
        c2.nodes =~= c0.nodes.update(idx, X86NodeV::NoOp),
        c2.buckets.len() == c0.buckets.len(),
        forall|i: int| 0 <= i < c0.buckets.len() && i != bi ==> c2.buckets[i] == c0.buckets[i],
        c2.buckets[bi].key == c0.buckets[bi].key,
        c2.buckets[bi].indices =~= c0.buckets[bi].indices.remove(pos),
    ensures
        graph_wf(c2),
{
    let old_indices = c0.buckets[bi].indices;
    let new_indices = c2.buckets[bi].indices;
    // Only position `pos` of bucket `bi` named the blanked node.
    assert(bucket_wf(c0, bi));
    assert forall|k: int| 0 <= k < old_indices.len() && k != pos implies old_indices[k] != (
    idx as usize) by {
        if k < pos {
            assert(old_indices[k] != old_indices[pos]);
        } else {
            assert(old_indices[pos] != old_indices[k]);
        }
    }
    // Other buckets never named it: their keys differ, entry types match keys.
    assert forall|i: int, k: int|
        0 <= i < c0.buckets.len() && i != bi && 0 <= k < c0.buckets[i].indices.len() implies
        c0.buckets[i].indices[k] != (idx as usize) by {
        assert(bucket_wf(c0, i));
        assert(bucket_entry_ok(c0, i, k));
        if c0.buckets[i].indices[k] == idx as usize {
            let e = c0.buckets[i].indices[k];
            assert(node_reg_type(c0.nodes[e as int]) == Some(c0.buckets[i].key));
            assert(e as int == idx);
            assert(Some(c0.buckets[i].key) == node_reg_type(c0.nodes[idx]));
            assert(c0.buckets[i].key == c0.buckets[bi].key);
            assert(false);
        }
    }
    // Each bucket stays consistent.
    assert forall|i: int| 0 <= i < c2.buckets.len() implies #[trigger] bucket_wf(c2, i) by {
        assert(bucket_wf(c0, i));
        if i == bi {
            assert forall|k: int| 0 <= k < new_indices.len() implies #[trigger] bucket_entry_ok(
                c2,
                i,
                k,
            ) by {
                let korig = if k < pos {
                    k
                } else {
                    k + 1
                };
                assert(new_indices[k] == old_indices[korig]);
                assert(bucket_entry_ok(c0, i, korig));
                assert(old_indices[korig] != (idx as usize));
            }
            assert forall|k1: int, k2: int|
                0 <= k1 < k2 < new_indices.len() implies new_indices[k1] != new_indices[k2] by {
                let k1o = if k1 < pos {
                    k1
                } else {
                    k1 + 1
                };
                let k2o = if k2 < pos {
                    k2
                } else {
                    k2 + 1
                };
                assert(new_indices[k1] == old_indices[k1o]);
                assert(new_indices[k2] == old_indices[k2o]);
            }
        } else {
            assert forall|k: int| 0 <= k < c2.buckets[i].indices.len() implies
                #[trigger] bucket_entry_ok(c2, i, k) by {
                assert(bucket_entry_ok(c0, i, k));
                assert(c0.buckets[i].indices[k] != (idx as usize));
            }
        }
    }
    // Every other registered node stays registered.
    assert forall|n: int|
        0 <= n < c2.nodes.len() && node_reg_type(#[trigger] c2.nodes[n]) is Some implies
        node_registered(c2, n) by {
        assert(n != idx);
        assert(c2.nodes[n] == c0.nodes[n]);
        assert(node_registered(c0, n));
        let i = choose|i: int|
            0 <= i < c0.buckets.len() && Some(#[trigger] c0.buckets[i].key) == node_reg_type(
                c0.nodes[n],
            ) && c0.buckets[i].indices.contains(n as usize);
        if i == bi {
            let k = choose|k: int|
                0 <= k < old_indices.len() && old_indices[k] == n as usize;
            if k == pos {
                assert(n as usize == idx as usize);
                assert(n == idx);
            }
            assert(k != pos);
            let knew = if k < pos {
                k
            } else {
                k - 1
            };
            assert(new_indices[knew] == old_indices[k]);
            assert(new_indices.contains(n as usize));
            assert(Some(c2.buckets[i].key) == node_reg_type(c2.nodes[n]));
        } else {
            assert(c2.buckets[i].indices.contains(n as usize));
        }
    }
    // Every node stays locally well-formed: nothing referenced the blanked one.
    assert forall|j: int| 0 <= j < c2.nodes.len() implies #[trigger] node_wf(c2, j) by {
        if j != idx {
            assert(node_wf(c0, j));
            assert(c2.nodes[j] == c0.nodes[j]);
            if c2.nodes[j] is Produced {
                let ci = c2.nodes[j]->Produced_0;
                assert(node_has_no_ref_to(c0.nodes[j], idx as usize));
                assert forall|k: int| 0 <= k < ci.references.len() implies {
                    let r = #[trigger] ci.references[k];
                    &&& (r as int) < c2.nodes.len()
                    &&& r > j
                    &&& node_reg_type(c2.nodes[r as int]) == Some(
                        spec_underlying_simd_type(ci.intrinsic.param_types[k]),
                    )
                } by {
                    let r = ci.references[k];
                    assert(r != idx as usize);
                    assert(c2.nodes[r as int] == c0.nodes[r as int]);
                }
            }
        }
    }
}

} // verus!

verus! {

/// One draw in six reuses an existing node instead of appending a new one.
pub const REUSE_NODE_IDX_DENOM: u32 = 6;

pub const REUSE_NODE_IDX_NUM: u32 = 1;

/// The node a reference request appends when no node is reused: a drawn
/// constant for a constant-immediate type, a typed hole for everything else.
pub open spec fn fresh_node_for_type(t: X86SIMDType, v: u32) -> X86NodeV {
    match t {
        X86SIMDType::ConstantImmediate(b, w) => X86NodeV::ConstantImmediate(b, w as u32, v),
        _ => X86NodeV::Pending(t),
    }
}

/// Appending a freshly registered node keeps the graph well-formed.
proof fn lemma_append_wf(c0: X86CtxV, c2: X86CtxV, u: X86SIMDType, bi_opt: Option<int>)
    requires
        graph_wf(c0),
        c0.nodes.len() < usize::MAX,
        spec_underlying_simd_type(u) == u,
        c2.nodes.len() == c0.nodes.len() + 1,
        forall|i: int| 0 <= i < c0.nodes.len() ==> c2.nodes[i] == c0.nodes[i],
        node_reg_type(c2.nodes[c0.nodes.len() as int]) == Some(u),
        node_wf(c2, c0.nodes.len() as int),
        !node_is_noop(c2.nodes[c0.nodes.len() as int]),
        match bi_opt {
            Some(bi) => {
                &&& 0 <= bi < c0.buckets.len()
                &&& c0.buckets[bi].key == u
                &&& c2.buckets.len() == c0.buckets.len()
                &&& forall|i: int|
                    0 <= i < c0.buckets.len() && i != bi ==> c2.buckets[i] == c0.buckets[i]
                &&& c2.buckets[bi].key == u
                &&& c2.buckets[bi].indices =~= c0.buckets[bi].indices.push(
                    c0.nodes.len() as usize,
                )
            },
            None => {
                &&& forall|i: int|
                    0 <= i < c0.buckets.len() ==> (#[trigger] c0.buckets[i].key) != u
                &&& c2.buckets.len() == c0.buckets.len() + 1
                &&& forall|i: int| 0 <= i < c0.buckets.len() ==> c2.buckets[i] == c0.buckets[i]
                &&& c2.buckets[c0.buckets.len() as int].key == u
                &&& c2.buckets[c0.buckets.len() as int].indices =~= seq![c0.nodes.len() as usize]
            },
        },
    ensures
        graph_wf(c2),
{
    let newn = c0.nodes.len() as usize;
    // Keys stay distinct.
    assert forall|i: int, j: int|
        0 <= i < j < c2.buckets.len() implies (#[trigger] c2.buckets[i].key) != (
    #[trigger] c2.buckets[j].key) by {
        match bi_opt {
            Some(_) => {}
            None => {
                if j < c0.buckets.len() as int {
                } else {
                    assert(c2.buckets[i] == c0.buckets[i]);
                }
            }
        }
    }
    // Buckets stay consistent.
    assert forall|i: int| 0 <= i < c2.buckets.len() implies #[trigger] bucket_wf(c2, i) by {
        let changed = match bi_opt {
            Some(bi) => i == bi,
            None => i == c0.buckets.len() as int,
        };
        if !changed {
            assert(bucket_wf(c0, i));
            assert forall|k: int| 0 <= k < c2.buckets[i].indices.len() implies
                #[trigger] bucket_entry_ok(c2, i, k) by {
                assert(bucket_entry_ok(c0, i, k));
            }
        } else {
            match bi_opt {
                Some(bi) => {
                    assert(bucket_wf(c0, bi));
                    let old_indices = c0.buckets[bi].indices;
                    assert forall|k: int| 0 <= k < c2.buckets[i].indices.len() implies
                        #[trigger] bucket_entry_ok(c2, i, k) by {
                        if k < old_indices.len() {
                            assert(bucket_entry_ok(c0, i, k));
                        } else {
                            assert(c2.buckets[i].indices[k] == newn);
                        }
                    }
                    assert forall|k1: int, k2: int|
                        0 <= k1 < k2 < c2.buckets[i].indices.len() implies c2.buckets[
                        i
                    ].indices[k1] != c2.buckets[i].indices[k2] by {
                        if k2 == old_indices.len() {
                            assert(bucket_entry_ok(c0, i, k1));
                            assert((old_indices[k1] as int) < c0.nodes.len());
                        }
                    }
                }
                None => {
                    assert forall|k: int| 0 <= k < c2.buckets[i].indices.len() implies
                        #[trigger] bucket_entry_ok(c2, i, k) by {
                        assert(c2.buckets[i].indices[k] == newn);
                    }
                }
            }
        }
    }
    // Every registered node is still listed somewhere.
    assert forall|n: int|
        0 <= n < c2.nodes.len() && node_reg_type(#[trigger] c2.nodes[n]) is Some implies
        node_registered(c2, n) by {
        if n < c0.nodes.len() {
            assert(node_registered(c0, n));
            let i = choose|i: int|
                0 <= i < c0.buckets.len() && Some(#[trigger] c0.buckets[i].key) == node_reg_type(
                    c0.nodes[n],
                ) && c0.buckets[i].indices.contains(n as usize);
            let k = choose|k: int|
                0 <= k < c0.buckets[i].indices.len() && c0.buckets[i].indices[k] == n as usize;
            let changed = match bi_opt {
                Some(bi) => i == bi,
                None => false,
            };
            if changed {
                assert(c2.buckets[i].indices[k] == n as usize);
                assert(c2.buckets[i].indices.contains(n as usize));
            } else {
                assert(c2.buckets[i] == c0.buckets[i]);
            }
            assert(Some(c2.buckets[i].key) == node_reg_type(c2.nodes[n]));
        } else {
            assert(n == c0.nodes.len());
            match bi_opt {
                Some(bi) => {
                    let k = c0.buckets[bi].indices.len() as int;
                    assert(c2.buckets[bi].indices[k] == newn);
                    assert(c2.buckets[bi].indices.contains(newn));
                    assert(node_registered(c2, n));
                }
                None => {
                    let bi = c0.buckets.len() as int;
                    assert(c2.buckets[bi].indices[0] == newn);
                    assert(c2.buckets[bi].indices.contains(newn));
                    assert(node_registered(c2, n));
                }
            }
        }
    }
    // Local well-formedness carries over; the new node was given its own.
    assert forall|j: int| 0 <= j < c2.nodes.len() implies #[trigger] node_wf(c2, j) by {
        if j < c0.nodes.len() {
            assert(node_wf(c0, j));
            if c2.nodes[j] is Produced {
                let ci = c2.nodes[j]->Produced_0;
                assert forall|k: int| 0 <= k < ci.references.len() implies {
                    let r = #[trigger] ci.references[k];
                    &&& (r as int) < c2.nodes.len()
                    &&& r > j
                    &&& node_reg_type(c2.nodes[r as int]) == Some(
                        spec_underlying_simd_type(ci.intrinsic.param_types[k]),
                    )
                } by {
                    let r = ci.references[k];
                    assert(produced_node_wf(c0, j));
                    assert((r as int) < c0.nodes.len());
                    assert(c2.nodes[r as int] == c0.nodes[r as int]);
                }
            }
        }
    }
}

impl X86SIMDCodegenCtx {
    /// Get a node index producing `ref_type` usable as an operand of the node
    /// at `before_idx`: occasionally one of the registered later producers is
    /// reused (the device that makes graphs DAGs rather than trees);
    /// otherwise a fresh node is appended and registered.  For a
    /// constant-immediate type the fresh node is a drawn constant, never a
    /// hole.
    pub fn get_ref_of_type(&mut self, ref_type: X86SIMDType, before_idx: usize) -> (r: usize)
        requires
            graph_wf(old(self)@),
            old(self)@.nodes.len() < usize::MAX - 1,
            (match ref_type {
                X86SIMDType::ConstantImmediate(_, w) => 0 <= w <= 31,
                _ => true,
            }),
        ensures
            graph_wf(final(self)@),
            final(self)@.nodes.len() >= old(self)@.nodes.len(),
            forall|i: int|
                0 <= i < old(self)@.nodes.len() ==> final(self)@.nodes[i] == old(self)@.nodes[i],
            (r as int) < final(self)@.nodes.len(),
            node_reg_type(final(self)@.nodes[r as int]) == Some(
                spec_underlying_simd_type(ref_type),
            ),
            final(self)@.nodes.len() == old(self)@.nodes.len() ==> {
                &&& final(self)@.nodes =~= old(self)@.nodes
                &&& final(self)@.buckets =~= old(self)@.buckets
                &&& r > before_idx
            },
            final(self)@.nodes.len() != old(self)@.nodes.len() ==> {
                &&& final(self)@.nodes.len() == old(self)@.nodes.len() + 1
                &&& r == old(self)@.nodes.len()
                &&& exists|v: u32|
                    final(self)@.nodes =~= old(self)@.nodes.push(fresh_node_for_type(ref_type, v))
            },
    {
        let ghost oldv = self@;
        if let Some(bi) = self.find_bucket(ref_type) {
            let mut k: usize = 0;
            while k < self.type_to_ref_idx[bi].indices.len()
                invariant
                    oldv == old(self)@,
                    self@ == oldv,
                    graph_wf(oldv),
                    bi < oldv.buckets.len(),
                    oldv.buckets[bi as int].key == ref_type,
                    k <= oldv.buckets[bi as int].indices.len(),
                decreases oldv.buckets[bi as int].indices.len() - k,
            {
                let ridx = self.type_to_ref_idx[bi].indices[k];
                if ridx > before_idx {
                    let draw = self.rng.rand();
                    if draw % REUSE_NODE_IDX_DENOM < REUSE_NODE_IDX_NUM {
                        proof {
                            assert(bucket_wf(oldv, bi as int));
                            assert(bucket_entry_ok(oldv, bi as int, k as int));
                            assert(spec_underlying_simd_type(ref_type) == ref_type);
                        }
                        return ridx;
                    }
                }
                k = k + 1;
            }
        }
        let ghost prev = self@;
        proof {
            assert(prev == oldv);
        }
        let new_ref_idx = self.intrinsics_sequence.len();
        let ghost vdrawn: u32;
        match ref_type {
            X86SIMDType::ConstantImmediate(base_type, imm_size) => {
                let w = imm_size as u32;
                let bound = 1u32 << w;
                proof {
                    assert(bound > 0) by (bit_vector)
                        requires
                            bound == 1u32 << w,
                            w <= 31u32,
                    ;
                }
                let draw = self.rng.rand();
                let v = draw % bound;
                proof {
                    vdrawn = v;
                    assert(v < (1u32 << w));
                }
                self.intrinsics_sequence.push(
                    X86SIMDCodegenNode::ConstantImmediate(base_type, w, v),
                );
            },
            _ => {
                proof {
                    vdrawn = 0;
                }
                self.intrinsics_sequence.push(X86SIMDCodegenNode::Pending(ref_type));
            },
        }
        proof {
            assert(self@.nodes.len() == prev.nodes.len() + 1);
            assert(self@.nodes[prev.nodes.len() as int] == fresh_node_for_type(ref_type, vdrawn));
        }
        let underlying_type = get_underlying_simd_type(ref_type);
        let ghost mid = self@;
        let bopt = self.find_bucket(underlying_type);
        match bopt {
            Some(bi2) => {
                self.type_to_ref_idx[bi2].indices.push(new_ref_idx);
                proof {
                    assert(self@.nodes =~= mid.nodes);
                    lemma_append_wf(prev, self@, underlying_type, Some(bi2 as int));
                }
            },
            None => {
                let mut iv: Vec<usize> = Vec::new();
                iv.push(new_ref_idx);
                self.type_to_ref_idx.push(X86TypeBucket { key: underlying_type, indices: iv });
                proof {
                    assert(self@.nodes =~= mid.nodes);
                    assert(self@.buckets[prev.buckets.len() as int].indices =~= seq![
                        prev.nodes.len() as usize,
                    ]);
                    lemma_append_wf(prev, self@, underlying_type, None);
                }
            },
        }
        proof {
            assert(final(self)@.nodes =~= prev.nodes.push(fresh_node_for_type(ref_type, vdrawn)));
        }
        new_ref_idx
    }
}

} // verus!

verus! {

impl X86SIMDCodegenCtx {
    /// Find some node other than `not_idx`, later than `before_idx`, that is
    /// registered under exactly `ref_type`; `None` only when no such node
    /// exists anywhere in the graph.
    pub fn maybe_get_node_of_type(
        &self,
        ref_type: X86SIMDType,
        before_idx: usize,
        not_idx: usize,
    ) -> (r: Option<usize>)
        requires
            graph_wf(self@),
        ensures
            match r {
                Some(i) => {
                    &&& (i as int) < self@.nodes.len()
                    &&& i > before_idx
                    &&& i != not_idx
                    &&& node_reg_type(self@.nodes[i as int]) == Some(ref_type)
                    &&& exists|bi: int, k: int|
                        {
                            &&& 0 <= bi < self@.buckets.len()
                            &&& (#[trigger] self@.buckets[bi].key) == ref_type
                            &&& 0 <= k < self@.buckets[bi].indices.len()
                            &&& #[trigger] self@.buckets[bi].indices[k] == i
                            &&& forall|k2: int|
                                0 <= k2 < k ==> !((#[trigger] self@.buckets[bi].indices[k2])
                                    > before_idx && self@.buckets[bi].indices[k2] != not_idx)
                        }
                },
                None => forall|n: int|
                    0 <= n < self@.nodes.len() && n > before_idx && n != not_idx
                        ==> node_reg_type(#[trigger] self@.nodes[n]) != Some(ref_type),
            },
    {
        let bopt = self.find_bucket(ref_type);
        if let Some(bi) = bopt {
            let ghost indices = self@.buckets[bi as int].indices;
            let mut k: usize = 0;
            while k < self.type_to_ref_idx[bi].indices.len()
                invariant
                    graph_wf(self@),
                    bi < self@.buckets.len(),
                    self@.buckets[bi as int].key == ref_type,
                    indices == self@.buckets[bi as int].indices,
                    k <= indices.len(),
                    forall|j: int|
                        0 <= j < k ==> !((#[trigger] indices[j]) > before_idx && indices[j]
                            != not_idx),
                decreases indices.len() - k,
            {
                let ridx = self.type_to_ref_idx[bi].indices[k];
                if ridx > before_idx && ridx != not_idx {
                    proof {
                        assert(bucket_wf(self@, bi as int));
                        assert(bucket_entry_ok(self@, bi as int, k as int));
                        assert(0 <= bi < self@.buckets.len() && self@.buckets[bi as int].key
                            == ref_type && 0 <= k < self@.buckets[bi as int].indices.len()
                            && self@.buckets[bi as int].indices[k as int] == ridx);
                    }
                    return Some(ridx);
                }
                k = k + 1;
            }
            proof {
                vstd::std_specs::vec::axiom_spec_len(&self.intrinsics_sequence);
                assert forall|n: int|
                    0 <= n < self@.nodes.len() && n > before_idx && n != not_idx implies
                    node_reg_type(#[trigger] self@.nodes[n]) != Some(ref_type) by {
                    if node_reg_type(self@.nodes[n]) == Some(ref_type) {
                        assert(node_registered(self@, n));
                        let i = choose|i: int|
                            0 <= i < self@.buckets.len() && Some(#[trigger] self@.buckets[i].key)
                                == node_reg_type(self@.nodes[n]) && self@.buckets[
                                i
                            ].indices.contains(n as usize);
                        if i != bi as int {
                            assert(self@.buckets[i].key == self@.buckets[bi as int].key);
                            assert(false);
                        }
                        let j = choose|j: int|
                            0 <= j < indices.len() && indices[j] == n as usize;
                        assert(!(indices[j] > before_idx && indices[j] != not_idx));
                        assert(false);
                    }
                }
            }
            None
        } else {
            proof {
                vstd::std_specs::vec::axiom_spec_len(&self.intrinsics_sequence);
                assert forall|n: int|
                    0 <= n < self@.nodes.len() && n > before_idx && n != not_idx implies
                    node_reg_type(#[trigger] self@.nodes[n]) != Some(ref_type) by {
                    if node_reg_type(self@.nodes[n]) == Some(ref_type) {
                        assert(node_registered(self@, n));
                        let i = choose|i: int|
                            0 <= i < self@.buckets.len() && Some(#[trigger] self@.buckets[i].key)
                                == node_reg_type(self@.nodes[n]) && self@.buckets[
                                i
                            ].indices.contains(n as usize);
                        assert(false);
                    }
                }
            }
            None
        }
    }

    /// Whether the produced node at `jj` references `target`.
    fn refs_contain(&self, jj: usize, target: usize) -> (r: bool)
        requires
            jj < self@.nodes.len(),
            self@.nodes[jj as int] is Produced,
        ensures
            r == !node_has_no_ref_to(self@.nodes[jj as int], target),
    {
        let ghost civ = self@.nodes[jj as int]->Produced_0;
        match &self.intrinsics_sequence[jj] {
            X86SIMDCodegenNode::Produced(ci) => {
                let mut k: usize = 0;
                while k < ci.references.len()
                    invariant
                        jj < self@.nodes.len(),
                        self@.nodes[jj as int] is Produced,
                        civ == self@.nodes[jj as int]->Produced_0,
                        civ == ci@,
                        k <= civ.references.len(),
                        forall|j: int| 0 <= j < k ==> (#[trigger] civ.references[j]) != target,
                    decreases civ.references.len() - k,
                {
                    if ci.references[k] == target {
                        return true;
                    }
                    k = k + 1;
                }
                false
            },
            _ => {
                proof {
                    assert(false);
                }
                false
            },
        }
    }

    /// Rewrite every operand reference `from` of the produced node at `jj` to
    /// `to`, a later-than-`jj` node registered under the same type.
    fn replace_refs_in_node(&mut self, jj: usize, from: usize, to: usize)
        requires
            graph_wf(old(self)@),
            jj < old(self)@.nodes.len(),
            old(self)@.nodes[jj as int] is Produced,
            (to as int) < old(self)@.nodes.len(),
            to > jj,
            (from as int) < old(self)@.nodes.len(),
            node_reg_type(old(self)@.nodes[to as int]) == node_reg_type(
                old(self)@.nodes[from as int],
            ),
            node_reg_type(old(self)@.nodes[from as int]) is Some,
        ensures
            graph_wf(final(self)@),
            final(self)@.buckets == old(self)@.buckets,
            final(self)@.nodes.len() == old(self)@.nodes.len(),
            forall|i: int|
                0 <= i < old(self)@.nodes.len() && i != jj ==> final(self)@.nodes[i] == old(
                    self,
                )@.nodes[i],
            ({
                let oldci = old(self)@.nodes[jj as int]->Produced_0;
                let newci = final(self)@.nodes[jj as int]->Produced_0;
                &&& final(self)@.nodes[jj as int] is Produced
                &&& newci.intrinsic == oldci.intrinsic
                &&& newci.references.len() == oldci.references.len()
                &&& forall|k: int|
                    0 <= k < oldci.references.len() ==> #[trigger] newci.references[k] == (
                    if oldci.references[k] == from {
                        to
                    } else {
                        oldci.references[k]
                    })
            }),
    {
        let ghost oldv = self@;
        let ghost oldci = oldv.nodes[jj as int]->Produced_0;
        let (intr_clone, refs_len) = match &self.intrinsics_sequence[jj] {
            X86SIMDCodegenNode::Produced(ci) => (ci.intrinsic.clone(), ci.references.len()),
            _ => {
                proof {
                    assert(false);
                }
                (
                    X86SIMDIntrinsic {
                        intrinsic_name: String::new(),
                        return_type: X86SIMDType::Primitive(X86BaseType::Void),
                        param_types: Vec::new(),
                    },
                    0,
                )
            },
        };
        let mut new_refs: Vec<usize> = Vec::new();
        let mut k: usize = 0;
        while k < refs_len
            invariant
                oldv == old(self)@,
                self@ == oldv,
                jj < oldv.nodes.len(),
                oldv.nodes[jj as int] is Produced,
                oldci == oldv.nodes[jj as int]->Produced_0,
                refs_len == oldci.references.len(),
                k <= refs_len,
                new_refs@.len() == k as int,
                forall|j: int|
                    0 <= j < k ==> #[trigger] new_refs@[j] == (if oldci.references[j] == from {
                        to
                    } else {
                        oldci.references[j]
                    }),
            decreases refs_len - k,
        {
            let r = match &self.intrinsics_sequence[jj] {
                X86SIMDCodegenNode::Produced(ci) => ci.references[k],
                _ => {
                    proof {
                        assert(false);
                    }
                    0
                },
            };
            if r == from {
                new_refs.push(to);
            } else {
                new_refs.push(r);
            }
            k = k + 1;
        }
        let new_node = X86SIMDCodegenNode::Produced(
            X86SIMDCodegenIntrinsic { intrinsic: intr_clone, references: new_refs },
        );
        let ghost newci = new_node@->Produced_0;
        self.intrinsics_sequence[jj] = new_node;
        proof {
            assert(self@.buckets =~= oldv.buckets);
            assert(self@.nodes =~= oldv.nodes.update(jj as int, X86NodeV::Produced(newci)));
            assert(node_reg_type(X86NodeV::Produced(newci)) == node_reg_type(
                oldv.nodes[jj as int],
            ));
            assert(node_wf(oldv, jj as int));
            assert(produced_node_wf(oldv, jj as int));
            assert forall|k2: int| 0 <= k2 < newci.references.len() implies {
                let r = #[trigger] newci.references[k2];
                &&& (r as int) < self@.nodes.len()
                &&& r > jj
                &&& node_reg_type(self@.nodes[r as int]) == Some(
                    spec_underlying_simd_type(newci.intrinsic.param_types[k2]),
                )
            } by {
                let rold = oldci.references[k2];
                let rnew = newci.references[k2];
                assert((rold as int) < oldv.nodes.len() && rold > jj && node_reg_type(
                    oldv.nodes[rold as int],
                ) == Some(spec_underlying_simd_type(oldci.intrinsic.param_types[k2])));
                if rold == from {
                    assert(rnew == to);
                    assert(node_reg_type(oldv.nodes[to as int]) == node_reg_type(
                        oldv.nodes[from as int],
                    ));
                    assert(rnew as int != jj as int);
                    assert(node_reg_type(self@.nodes[rnew as int]) == node_reg_type(
                        oldv.nodes[rnew as int],
                    ));
                } else {
                    assert(rnew == rold);
                    assert(node_reg_type(self@.nodes[rnew as int]) == node_reg_type(
                        oldv.nodes[rnew as int],
                    ));
                }
            }
            assert(node_wf(self@, jj as int));
            lemma_wf_after_reg_preserving_update(oldv, self@, jj as int);
        }
    }
}

} // verus!

verus! {

impl Clone for X86SIMDCodegenCtx {
    /// Cloning keeps the graph's mathematical image; the minimizer builds its
    /// candidate graphs this way.
    fn clone(&self) -> (r: Self)
        ensures
            r@ == self@,
    {
        let mut nodes: Vec<X86SIMDCodegenNode> = Vec::new();
        let mut i: usize = 0;
        while i < self.intrinsics_sequence.len()
            invariant
                i <= self@.nodes.len(),
                nodes@.len() == i as int,
                forall|j: int| 0 <= j < i ==> (#[trigger] nodes@[j])@ == self@.nodes[j],
            decreases self@.nodes.len() - i,
        {
            nodes.push(self.intrinsics_sequence[i].clone());
            i = i + 1;
        }
        let mut buckets: Vec<X86TypeBucket> = Vec::new();
        let mut b: usize = 0;
        while b < self.type_to_ref_idx.len()
            invariant
                b <= self@.buckets.len(),
                buckets@.len() == b as int,
                forall|j: int| 0 <= j < b ==> (#[trigger] buckets@[j])@ == self@.buckets[j],
            decreases self@.buckets.len() - b,
        {
            let ob = &self.type_to_ref_idx[b];
            let mut indices: Vec<usize> = Vec::new();
            let mut k: usize = 0;
            while k < ob.indices.len()
                invariant
                    k <= ob.indices@.len(),
                    indices@ == ob.indices@.subrange(0, k as int),
                decreases ob.indices@.len() - k,
            {
                indices.push(ob.indices[k]);
                k = k + 1;
            }
            proof {
                assert(indices@ =~= ob.indices@);
            }
            buckets.push(X86TypeBucket { key: ob.key, indices });
            b = b + 1;
        }
        let r = X86SIMDCodegenCtx {
            intrinsics_sequence: nodes,
            type_to_ref_idx: buckets,
            rng: self.rng.clone(),
        };
        proof {
            assert(r@.nodes =~= self@.nodes);
            assert(r@.buckets =~= self@.buckets);
        }
        r
    }
}

/// Blanking a live node strictly decreases the live-node count; replacing a
/// node by one of the same liveness keeps it.
pub proof fn lemma_count_non_noop_update(nodes: Seq<X86NodeV>, idx: int, n: X86NodeV)
    requires
        0 <= idx < nodes.len(),
    ensures
        !node_is_noop(nodes[idx]) && node_is_noop(n) ==> count_non_noop(nodes.update(idx, n)) + 1
            == count_non_noop(nodes),
        node_is_noop(nodes[idx]) == node_is_noop(n) ==> count_non_noop(nodes.update(idx, n))
            == count_non_noop(nodes),
    decreases nodes.len(),
{
    let upd = nodes.update(idx, n);
    if idx == nodes.len() - 1 {
        assert(upd.drop_last() =~= nodes.drop_last());
        assert(upd.last() == n);
    } else {
        lemma_count_non_noop_update(nodes.drop_last(), idx, n);
        assert(upd.drop_last() =~= nodes.drop_last().update(idx, n));
        assert(upd.last() == nodes.last());
    }
}

/// A node of the reduced graph is the original node, a tombstone, or the same
/// intrinsic call with rerouted operands.
pub open spec fn node_reduced(o: X86NodeV, r: X86NodeV) -> bool {
    ||| r == o
    ||| (r is NoOp && (o is Produced || o is Zero))
    ||| match (o, r) {
        (X86NodeV::Produced(a), X86NodeV::Produced(b)) => a.intrinsic == b.intrinsic
            && a.references.len() == b.references.len(),
        _ => false,
    }
}

/// The reduced graph blanks or reroutes nodes of the original, nothing more:
/// same length, tombstones only grow, every survivor keeps its operation.
pub open spec fn graph_reduced(o: Seq<X86NodeV>, r: Seq<X86NodeV>) -> bool {
    &&& r.len() == o.len()
    &&& forall|i: int| 0 <= i < o.len() ==> node_reduced(o[i], #[trigger] r[i])
    &&& forall|i: int|
        0 <= i < o.len() && node_is_noop(#[trigger] o[i]) ==> node_is_noop(r[i])
}

pub proof fn lemma_graph_reduced_trans(a: Seq<X86NodeV>, b: Seq<X86NodeV>, c: Seq<X86NodeV>)
    requires
        graph_reduced(a, b),
        graph_reduced(b, c),
    ensures
        graph_reduced(a, c),
{
    assert forall|i: int| 0 <= i < a.len() implies node_reduced(a[i], #[trigger] c[i]) by {
        assert(node_reduced(a[i], b[i]));
        assert(node_reduced(b[i], c[i]));
    }
}

} // verus!

verus! {

/// A node's registration type is always a fixed point of the mask collapse.
proof fn lemma_reg_type_stable(n: X86NodeV)
    ensures
        node_reg_type(n) matches Some(t) ==> spec_underlying_simd_type(t) == t,
{
}

/// Graphs whose nodes are tombstones at exactly the same places hold equally
/// many live nodes.
pub proof fn lemma_count_pointwise(a: Seq<X86NodeV>, b: Seq<X86NodeV>)
    requires
        a.len() == b.len(),
        forall|i: int|
            0 <= i < a.len() ==> node_is_noop(#[trigger] a[i]) == node_is_noop(#[trigger] b[i]),
    ensures
        count_non_noop(a) == count_non_noop(b),
    decreases a.len(),
{
    if a.len() > 0 {
        assert forall|i: int|
            0 <= i < a.drop_last().len() implies node_is_noop(#[trigger] a.drop_last()[i])
            == node_is_noop(#[trigger] b.drop_last()[i]) by {
            assert(a.drop_last()[i] == a[i]);
            assert(b.drop_last()[i] == b[i]);
        }
        lemma_count_pointwise(a.drop_last(), b.drop_last());
        assert(node_is_noop(a.last()) == node_is_noop(b.last()));
    }
}

/// Node-deletion delta reduction.  For each produced node in turn, reroute
/// every downstream reference to another producer of the same type, blank the
/// node, and keep the candidate when `minim_check` says the failure still
/// reproduces; repeat until a full pass accepts nothing.
///
/// The result is the input graph with some nodes blanked and some operands
/// rerouted: the set of live nodes only shrinks, and any properly smaller
/// result was accepted by `minim_check` at the moment it became the current
/// best.  Each accepted step strictly decreases the live-node count, which is
/// what bounds the loop.
pub fn minimize_gen_x86_code<F: Fn(&X86SIMDCodegenCtx) -> bool>(
    codegen_ctx: &X86SIMDCodegenCtx,
    minim_check: F,
) -> (r: X86SIMDCodegenCtx)
    requires
        graph_wf(codegen_ctx@),
        forall|c: &X86SIMDCodegenCtx|
            graph_wf(c@) ==> #[trigger] call_requires(minim_check, (c,)),
    ensures
        graph_wf(r@),
        graph_reduced(codegen_ctx@.nodes, r@.nodes),
        r@ == codegen_ctx@ || (count_non_noop(r@.nodes) < count_non_noop(codegen_ctx@.nodes)
            && exists|c: &X86SIMDCodegenCtx|
            #[trigger] call_ensures(minim_check, (c,), true) && c@ == r@),
{
    let mut best_ctx = codegen_ctx.clone();
    let ghost orig = codegen_ctx@;
    let ghost mut accepted: bool = false;
    proof {
        vstd::std_specs::vec::axiom_spec_len(&codegen_ctx.intrinsics_sequence);
    }
    loop
        invariant
            orig == codegen_ctx@,
            orig.nodes.len() <= usize::MAX,
            graph_wf(best_ctx@),
            graph_reduced(orig.nodes, best_ctx@.nodes),
            forall|c: &X86SIMDCodegenCtx|
                graph_wf(c@) ==> #[trigger] call_requires(minim_check, (c,)),
            !accepted ==> best_ctx@ == orig,
            accepted ==> count_non_noop(best_ctx@.nodes) < count_non_noop(orig.nodes),
            accepted ==> exists|c: &X86SIMDCodegenCtx|
                #[trigger] call_ensures(minim_check, (c,), true) && c@ == best_ctx@,
        ensures
            graph_wf(best_ctx@),
            graph_reduced(orig.nodes, best_ctx@.nodes),
            !accepted ==> best_ctx@ == orig,
            accepted ==> count_non_noop(best_ctx@.nodes) < count_non_noop(orig.nodes),
            accepted ==> exists|c: &X86SIMDCodegenCtx|
                #[trigger] call_ensures(minim_check, (c,), true) && c@ == best_ctx@,
        decreases count_non_noop(best_ctx@.nodes),
    {
        let mut made_progress = false;
        let ghost best0 = best_ctx@;
        let ghost mut accepted0 = accepted;
        let num_nodes = best_ctx.get_num_nodes();
        let mut ii: usize = 1;
        while ii < num_nodes
            invariant
                1 <= ii,
                num_nodes == best0.nodes.len(),
                best_ctx@.nodes.len() == num_nodes,
                orig == codegen_ctx@,
                orig.nodes.len() <= usize::MAX,
                forall|c: &X86SIMDCodegenCtx|
                    graph_wf(c@) ==> #[trigger] call_requires(minim_check, (c,)),
                graph_wf(best_ctx@),
                graph_reduced(orig.nodes, best_ctx@.nodes),
                !made_progress ==> best_ctx@ == best0 && accepted == accepted0,
                made_progress ==> count_non_noop(best_ctx@.nodes) < count_non_noop(best0.nodes),
                made_progress ==> accepted,
                !accepted ==> best_ctx@ == orig,
                accepted ==> count_non_noop(best_ctx@.nodes) < count_non_noop(orig.nodes),
                accepted ==> exists|c: &X86SIMDCodegenCtx|
                    #[trigger] call_ensures(minim_check, (c,), true) && c@ == best_ctx@,
            decreases best0.nodes.len() - ii,
        {
            let ret_opt = match best_ctx.maybe_get_produced_node(ii) {
                Some(ci) => Some(ci.intrinsic.return_type),
                None => None,
            };
            if let Some(return_type) = ret_opt {
                let mut new_ctx = best_ctx.clone();
                let ghost base = best_ctx@;
                let mut can_replace_downstream_refs = true;
                let mut jj: usize = 0;
                while jj < ii
                    invariant
                        jj <= ii < base.nodes.len(),
                        base.nodes.len() <= usize::MAX,
                        forall|c: &X86SIMDCodegenCtx|
                            graph_wf(c@) ==> #[trigger] call_requires(minim_check, (c,)),
                        graph_wf(base),
                        base.nodes[ii as int] is Produced,
                        return_type == base.nodes[ii as int]->Produced_0.intrinsic.return_type,
                        graph_wf(new_ctx@),
                        new_ctx@.nodes.len() == base.nodes.len(),
                        forall|i: int|
                            jj <= i < base.nodes.len() ==> new_ctx@.nodes[i] == base.nodes[i],
                        forall|i: int|
                            0 <= i < jj ==> node_reduced(base.nodes[i], #[trigger] new_ctx@.nodes[i]),
                        forall|i: int|
                            0 <= i < base.nodes.len() ==> node_is_noop(#[trigger] base.nodes[i])
                                == node_is_noop(new_ctx@.nodes[i]),
                        can_replace_downstream_refs ==> forall|i: int|
                            0 <= i < jj ==> node_has_no_ref_to(#[trigger] new_ctx@.nodes[i], ii),
                    ensures
                        can_replace_downstream_refs ==> jj == ii,
                    decreases ii - jj,
                {
                    let is_prod = new_ctx.is_node_produced(jj);
                    if is_prod {
                        let has_ref = new_ctx.refs_contain(jj, ii);
                        if has_ref {
                            match new_ctx.maybe_get_node_of_type(return_type, jj, ii) {
                                Some(new_idx) => {
                                    proof {
                                        lemma_reg_type_stable(new_ctx@.nodes[new_idx as int]);
                                        assert(node_reg_type(new_ctx@.nodes[ii as int]) == Some(
                                            spec_underlying_simd_type(return_type),
                                        ));
                                    }
                                    new_ctx.replace_refs_in_node(jj, ii, new_idx);
                                },
                                None => {
                                    can_replace_downstream_refs = false;
                                    break ;
                                },
                            }
                        }
                    }
                    jj = jj + 1;
                }
                if can_replace_downstream_refs {
                    proof {
                        assert forall|j: int|
                            0 <= j < new_ctx@.nodes.len() implies node_has_no_ref_to(
                            #[trigger] new_ctx@.nodes[j],
                            ii,
                        ) by {
                            if j >= ii {
                                assert(new_ctx@.nodes[j] == base.nodes[j]);
                                if new_ctx@.nodes[j] is Produced {
                                    let ci = new_ctx@.nodes[j]->Produced_0;
                                    assert(node_wf(base, j));
                                    assert forall|k: int|
                                        0 <= k < ci.references.len() implies (
                                    #[trigger] ci.references[k]) != ii by {
                                        assert(ci.references[k] > j >= ii);
                                    }
                                }
                            }
                        }
                        assert(no_refs_to(new_ctx@, ii));
                    }
                    let ghost before_noop = new_ctx@;
                    new_ctx.mark_node_as_noop(ii);
                    proof {
                        lemma_count_pointwise(base.nodes, before_noop.nodes);
                        lemma_count_non_noop_update(before_noop.nodes, ii as int, X86NodeV::NoOp);
                        assert(count_non_noop(new_ctx@.nodes) + 1 == count_non_noop(base.nodes));
                        // The candidate is a reduction of the current best,
                        // hence of the original graph.
                        assert forall|i: int|
                            0 <= i < base.nodes.len() implies node_reduced(
                            base.nodes[i],
                            #[trigger] new_ctx@.nodes[i],
                        ) by {
                            if i != ii {
                                assert(node_reduced(base.nodes[i], before_noop.nodes[i]));
                            }
                        }
                        assert(graph_reduced(base.nodes, new_ctx@.nodes));
                        lemma_graph_reduced_trans(orig.nodes, base.nodes, new_ctx@.nodes);
                    }
                    if minim_check(&new_ctx) {
                        proof {
                            accepted = true;
                            assert(call_ensures(minim_check, (&new_ctx,), true));
                        }
                        made_progress = true;
                        best_ctx = new_ctx;
                        break ;
                    }
                }
            }
            ii = ii + 1;
        }
        if !made_progress {
            break ;
        }
    }
    best_ctx
}

} // verus!
