//! The scalar-loop flavor: a graph is a list of register-level operations on
//! unsigned 32-bit values inside a fixed strided loop over an input buffer.
use vstd::prelude::*;

use crate::rand::Rand;
use crate::fmt_num::{spec_dec_nat, usize_to_dec, u32_to_dec};

verus! {

/// How many scalar registers the emitted loop body uses.
pub const NUM_REGISTERS: usize = 50;

/// How many input slots each loop iteration reads.
pub const NUM_INPUTS: usize = 4;

/// An operand: an input slot, a register, or an unsigned literal.
#[derive(Clone, Copy, Debug, PartialEq, Eq, Structural)]
pub enum LoopCodegenValue {
    Input(usize),
    Register(usize),
    ConstantValue(u32),
}

/// The operation a node applies; a tombstone emits nothing.
#[derive(Clone, Copy, Debug, PartialEq, Eq, Structural)]
pub enum LoopCodegenOp {
    NoOp,
    Add,
    Sub,
    Mul,
    BitAnd,
    BitOr,
    BitXor,
    ShiftLeft,
    ShiftRight,
}

#[derive(Clone, Copy, Debug, PartialEq, Eq, Structural)]
pub enum LoopCodegenCondOp {
    Less,
    Greater,
    Eq,
    NotEq,
    LEq,
    GEq,
}

/// A guard on a node: compare a register against an operand.
#[derive(Clone, Copy, Debug, PartialEq, Eq, Structural)]
pub struct LoopCodegenCond {
    pub op: LoopCodegenCondOp,
    pub lhs_reg: usize,
    pub rhs: LoopCodegenValue,
}

/// One operation node: a destination register, two operands, and an optional
/// guard.
#[derive(Clone, Copy, Debug, PartialEq, Eq, Structural)]
pub struct LoopCodegenNode {
    pub op: LoopCodegenOp,
    pub dest_register: usize,
    pub src1: LoopCodegenValue,
    pub src2: LoopCodegenValue,
    pub cond: Option<LoopCodegenCond>,
}

/// The scalar-loop graph: a list of operation nodes.
#[derive(Debug)]
pub struct LoopCodegenCtx {
    pub nodes: Vec<LoopCodegenNode>,
}

impl Clone for LoopCodegenCtx {
    fn clone(&self) -> (r: Self)
        ensures
            r.nodes@ == self.nodes@,
    {
        let mut nodes: Vec<LoopCodegenNode> = Vec::new();
        let mut i: usize = 0;
        while i < self.nodes.len()
            invariant
                i <= self.nodes@.len(),
                nodes@ == self.nodes@.subrange(0, i as int),
            decreases self.nodes@.len() - i,
        {
            nodes.push(self.nodes[i]);
            i = i + 1;
        }
        proof {
            assert(nodes@ =~= self.nodes@);
        }
        LoopCodegenCtx { nodes }
    }
}

/// Every register and input index a node mentions is in range.
pub open spec fn loop_value_wf(v: LoopCodegenValue) -> bool {
    match v {
        LoopCodegenValue::Input(i) => i < NUM_INPUTS,
        LoopCodegenValue::Register(r) => r < NUM_REGISTERS,
        LoopCodegenValue::ConstantValue(_) => true,
    }
}

pub open spec fn loop_node_wf(n: LoopCodegenNode) -> bool {
    &&& n.dest_register < NUM_REGISTERS
    &&& loop_value_wf(n.src1)
    &&& loop_value_wf(n.src2)
    &&& match n.cond {
        Some(c) => c.lhs_reg < NUM_REGISTERS && loop_value_wf(c.rhs),
        None => true,
    }
}

pub open spec fn loop_ctx_wf(nodes: Seq<LoopCodegenNode>) -> bool {
    forall|i: int| 0 <= i < nodes.len() ==> loop_node_wf(#[trigger] nodes[i])
}

/// The C++ text of an operand; shift amounts are masked to four bits.
pub open spec fn spec_loop_value_code(v: LoopCodegenValue, do_and: bool) -> Seq<char> {
    let core = match v {
        LoopCodegenValue::Input(i) => "in_"@ + spec_dec_nat(i as nat),
        LoopCodegenValue::Register(r) => "r"@ + spec_dec_nat(r as nat),
        LoopCodegenValue::ConstantValue(c) => spec_dec_nat(c as nat) + "U"@,
    };
    if do_and {
        "("@ + core + " & 0x0f)"@
    } else {
        core
    }
}

pub open spec fn spec_loop_op_symbol(op: LoopCodegenOp) -> Seq<char> {
    match op {
        LoopCodegenOp::NoOp => ""@,
        LoopCodegenOp::Add => "+"@,
        LoopCodegenOp::Sub => "-"@,
        LoopCodegenOp::Mul => "*"@,
        LoopCodegenOp::BitAnd => "&"@,
        LoopCodegenOp::BitOr => "|"@,
        LoopCodegenOp::BitXor => "^"@,
        LoopCodegenOp::ShiftLeft => "<<"@,
        LoopCodegenOp::ShiftRight => ">>"@,
    }
}

pub open spec fn spec_loop_cond_op_code(op: LoopCodegenCondOp) -> Seq<char> {
    match op {
        LoopCodegenCondOp::Less => "<"@,
        LoopCodegenCondOp::Greater => ">"@,
        LoopCodegenCondOp::Eq => "=="@,
        LoopCodegenCondOp::NotEq => "!="@,
        LoopCodegenCondOp::LEq => "<="@,
        LoopCodegenCondOp::GEq => ">="@,
    }
}

pub open spec fn spec_loop_cond_code(c: LoopCodegenCond) -> Seq<char> {
    "r"@ + spec_dec_nat(c.lhs_reg as nat) + " "@ + spec_loop_cond_op_code(c.op) + " "@
        + spec_loop_value_code(c.rhs, false)
}

/// The statement a node contributes: nothing for a tombstone, otherwise an
/// assignment, guarded when the node carries a condition.
pub open spec fn spec_loop_node_code(n: LoopCodegenNode) -> Seq<char> {
    if n.op is NoOp {
        Seq::empty()
    } else {
        let do_and = n.op is ShiftLeft || n.op is ShiftRight;
        let assign = "\t\tr"@ + spec_dec_nat(n.dest_register as nat) + " = "@
            + spec_loop_value_code(n.src1, false) + " "@ + spec_loop_op_symbol(n.op) + " "@
            + spec_loop_value_code(n.src2, do_and) + ";\n"@;
        match n.cond {
            Some(c) => "\t\tif ("@ + spec_loop_cond_code(c) + ") {\n\t"@ + assign + "\t\t}\n"@,
            None => assign,
        }
    }
}

pub fn get_op_symbol(op: &LoopCodegenOp) -> (r: &'static str)
    requires
        !(*op is NoOp),
    ensures
        r@ == spec_loop_op_symbol(*op),
{
    match op {
        LoopCodegenOp::NoOp => "",
        LoopCodegenOp::Add => "+",
        LoopCodegenOp::Sub => "-",
        LoopCodegenOp::Mul => "*",
        LoopCodegenOp::BitAnd => "&",
        LoopCodegenOp::BitOr => "|",
        LoopCodegenOp::BitXor => "^",
        LoopCodegenOp::ShiftLeft => "<<",
        LoopCodegenOp::ShiftRight => ">>",
    }
}

pub fn cond_op_to_code(cond_op: &LoopCodegenCondOp) -> (r: &'static str)
    ensures
        r@ == spec_loop_cond_op_code(*cond_op),
{
    match cond_op {
        LoopCodegenCondOp::Less => "<",
        LoopCodegenCondOp::Greater => ">",
        LoopCodegenCondOp::Eq => "==",
        LoopCodegenCondOp::NotEq => "!=",
        LoopCodegenCondOp::LEq => "<=",
        LoopCodegenCondOp::GEq => ">=",
    }
}

pub fn get_rand_cond_op(rng: &mut Rand) -> (r: LoopCodegenCondOp) {
    let d = rng.rand() % 6;
    match d {
        0 => LoopCodegenCondOp::Less,
        1 => LoopCodegenCondOp::Greater,
        2 => LoopCodegenCondOp::Eq,
        3 => LoopCodegenCondOp::NotEq,
        4 => LoopCodegenCondOp::LEq,
        _ => LoopCodegenCondOp::GEq,
    }
}

impl LoopCodegenValue {
    /// Append this operand's text.
    pub fn write_to_code(&self, cpp_code: &mut String, do_and: bool)
        ensures
            final(cpp_code)@ =~= old(cpp_code)@ + spec_loop_value_code(*self, do_and),
    {
        if do_and {
            cpp_code.append("(");
        }
        match self {
            LoopCodegenValue::Input(input) => {
                cpp_code.append("in_");
                let d = usize_to_dec(*input);
                cpp_code.append(d.as_str());
            },
            LoopCodegenValue::Register(reg) => {
                cpp_code.append("r");
                let d = usize_to_dec(*reg);
                cpp_code.append(d.as_str());
            },
            LoopCodegenValue::ConstantValue(imm_val) => {
                let d = u32_to_dec(*imm_val);
                cpp_code.append(d.as_str());
                cpp_code.append("U");
            },
        }
        if do_and {
            cpp_code.append(" & 0x0f)");
        }
    }
}

impl LoopCodegenCond {
    /// Append this guard's text.
    pub fn write_to_code(&self, cpp_code: &mut String)
        ensures
            final(cpp_code)@ =~= old(cpp_code)@ + spec_loop_cond_code(*self),
    {
        cpp_code.append("r");
        let d = usize_to_dec(self.lhs_reg);
        cpp_code.append(d.as_str());
        cpp_code.append(" ");
        cpp_code.append(cond_op_to_code(&self.op));
        cpp_code.append(" ");
        self.rhs.write_to_code(cpp_code, false);
    }
}

impl LoopCodegenNode {
    /// Append this node's statement.
    pub fn write_to_code(&self, cpp_code: &mut String)
        ensures
            final(cpp_code)@ =~= old(cpp_code)@ + spec_loop_node_code(*self),
    {
        if matches!(self.op, LoopCodegenOp::NoOp) {
            return ;
        }
        if let Some(cond) = &self.cond {
            cpp_code.append("\t\tif (");
            cond.write_to_code(cpp_code);
            cpp_code.append(") {\n\t");
        }
        cpp_code.append("\t\tr");
        let d = usize_to_dec(self.dest_register);
        cpp_code.append(d.as_str());
        cpp_code.append(" = ");
        self.src1.write_to_code(cpp_code, false);
        cpp_code.append(" ");
        cpp_code.append(get_op_symbol(&self.op));
        cpp_code.append(" ");
        let do_and = match self.op {
            LoopCodegenOp::ShiftLeft | LoopCodegenOp::ShiftRight => true,
            _ => false,
        };
        self.src2.write_to_code(cpp_code, do_and);
        cpp_code.append(";\n");
        if self.cond.is_some() {
            cpp_code.append("\t\t}\n");
        }
    }
}

} // verus!

verus! {

/// The fixed input loads at the top of the loop body, `k` of them.
pub open spec fn spec_loop_ins_upto(k: int) -> Seq<char>
    decreases k,
{
    if k <= 0 {
        Seq::empty()
    } else {
        spec_loop_ins_upto(k - 1) + "\t\tunsigned int in_"@ + spec_dec_nat((k - 1) as nat)
            + " = inputs[i + "@ + spec_dec_nat((k - 1) as nat) + "];\n"@
    }
}

/// The fixed register initializations, `k` of them.
pub open spec fn spec_loop_regs_upto(k: int) -> Seq<char>
    decreases k,
{
    if k <= 0 {
        Seq::empty()
    } else {
        spec_loop_regs_upto(k - 1) + "\t\tunsigned int r"@ + spec_dec_nat((k - 1) as nat)
            + " = in_"@ + spec_dec_nat(((k - 1) as nat) % (NUM_INPUTS as nat)) + ";\n"@
    }
}

/// The fixed output accumulations, `k` of them.
pub open spec fn spec_loop_outs_upto(k: int) -> Seq<char>
    decreases k,
{
    if k <= 0 {
        Seq::empty()
    } else {
        spec_loop_outs_upto(k - 1) + "\t\toutputs[i + "@ + spec_dec_nat(
            ((k - 1) as nat) % (NUM_INPUTS as nat),
        ) + "] += r"@ + spec_dec_nat((k - 1) as nat) + ";\n"@
    }
}

/// The first `k` nodes' statements.
pub open spec fn spec_loop_nodes_upto(nodes: Seq<LoopCodegenNode>, k: int) -> Seq<char>
    decreases k,
{
    if k <= 0 {
        Seq::empty()
    } else {
        spec_loop_nodes_upto(nodes, k - 1) + spec_loop_node_code(nodes[k - 1])
    }
}

/// The complete emitted translation unit for a scalar-loop graph.
pub open spec fn spec_emit_loop(nodes: Seq<LoopCodegenNode>) -> Seq<char> {
    "extern \"C\" void do_stuff(const int* __restrict inputs, int* __restrict outputs, int count) {\n"@
        + "\tfor (int i = 0; i < count - "@ + spec_dec_nat((NUM_REGISTERS - 1) as nat) + "; i+= "@
        + spec_dec_nat(NUM_REGISTERS as nat) + ") {\n"@ + spec_loop_ins_upto(NUM_INPUTS as int)
        + spec_loop_regs_upto(NUM_REGISTERS as int) + spec_loop_nodes_upto(
        nodes,
        nodes.len() as int,
    ) + spec_loop_outs_upto(NUM_REGISTERS as int) + "\t}\n"@ + "}\n"@
}

impl LoopCodegenCtx {
    /// Draw a random register operand.
    pub fn get_random_register(num_registers: usize, rng: &mut Rand) -> (r: LoopCodegenValue)
        requires
            num_registers >= 1,
        ensures
            loop_value_wf(r) || (match r {
                LoopCodegenValue::Register(x) => x < num_registers,
                _ => false,
            }),
            (match r {
                LoopCodegenValue::Register(x) => x < num_registers,
                _ => false,
            }),
    {
        LoopCodegenValue::Register(rng.rand_size() % num_registers)
    }

    /// Draw a random input operand.
    pub fn get_random_input(num_inputs: usize, rng: &mut Rand) -> (r: LoopCodegenValue)
        requires
            num_inputs >= 1,
        ensures
            (match r {
                LoopCodegenValue::Input(x) => x < num_inputs,
                _ => false,
            }),
    {
        LoopCodegenValue::Input(rng.rand_size() % num_inputs)
    }

    /// Draw an operand: a biased literal a quarter of the time, else an input
    /// a twentieth of the time, else a register.
    pub fn get_random_value(num_registers: usize, num_inputs: usize, rng: &mut Rand) -> (r:
        LoopCodegenValue)
        requires
            num_registers >= 1,
            num_inputs >= 1,
        ensures
            (match r {
                LoopCodegenValue::Register(x) => x < num_registers,
                LoopCodegenValue::Input(x) => x < num_inputs,
                LoopCodegenValue::ConstantValue(_) => true,
            }),
    {
        if rng.rand() % 4 < 1 {
            let random_val = match rng.rand() % 10 {
                0 => 0,
                1 | 2 => 1,
                3 => 2,
                4 => 0xFFFFFFFFu32,
                5 => 17,
                _ => rng.rand(),
            };
            LoopCodegenValue::ConstantValue(random_val)
        } else {
            if rng.rand() % 4 < 1 {
                Self::get_random_input(num_inputs, rng)
            } else {
                Self::get_random_register(num_registers, rng)
            }
        }
    }

    /// Draw one operation node; subtraction is skipped in favor of a second
    /// chance at addition, which keeps values from collapsing to zero.
    pub fn get_random_node(num_registers: usize, num_inputs: usize, rng: &mut Rand) -> (r:
        LoopCodegenNode)
        requires
            num_registers >= 1,
            num_inputs >= 1,
            num_registers <= NUM_REGISTERS,
            num_inputs <= NUM_INPUTS,
        ensures
            loop_node_wf(r),
            !(r.op is NoOp),
    {
        let op_decider = rng.rand() % 8;
        let op = match op_decider {
            0 => LoopCodegenOp::Add,
            1 => LoopCodegenOp::Add,
            2 => LoopCodegenOp::Mul,
            3 => LoopCodegenOp::BitAnd,
            4 => LoopCodegenOp::BitOr,
            5 => LoopCodegenOp::BitXor,
            6 => LoopCodegenOp::ShiftLeft,
            _ => LoopCodegenOp::ShiftRight,
        };
        let cond = if rng.rand() % 5 < 1 {
            Some(
                LoopCodegenCond {
                    op: get_rand_cond_op(rng),
                    lhs_reg: rng.rand_size() % num_registers,
                    rhs: Self::get_random_value(num_registers, num_inputs, rng),
                },
            )
        } else {
            None
        };
        LoopCodegenNode {
            op,
            dest_register: rng.rand_size() % num_registers,
            src1: Self::get_random_register(num_registers, rng),
            src2: Self::get_random_value(num_registers, num_inputs, rng),
            cond,
        }
    }

    /// Build a fresh graph of 250 to 499 random nodes; a freshly drawn graph
    /// holds no erased node.
    pub fn new(seed: u64) -> (r: LoopCodegenCtx)
        ensures
            loop_ctx_wf(r.nodes@),
            250 <= r.nodes@.len() < 500,
            forall|i: int| 0 <= i < r.nodes@.len() ==> !((#[trigger] r.nodes@[i]).op is NoOp),
    {
        let mut rng = Rand::new(seed);
        let num_nodes = (rng.rand() % 250 + 250) as usize;
        let mut nodes: Vec<LoopCodegenNode> = Vec::new();
        let mut k: usize = 0;
        while k < num_nodes
            invariant
                250 <= num_nodes < 500,
                k <= num_nodes,
                nodes@.len() == k as int,
                loop_ctx_wf(nodes@),
                forall|i: int| 0 <= i < nodes@.len() ==> !((#[trigger] nodes@[i]).op is NoOp),
            decreases num_nodes - k,
        {
            let n = Self::get_random_node(NUM_REGISTERS, NUM_INPUTS, &mut rng);
            nodes.push(n);
            k = k + 1;
        }
        LoopCodegenCtx { nodes }
    }

    /// Emit the whole translation unit for this graph.
    pub fn generate_cpp_code(&self) -> (r: String)
        ensures
            r@ =~= spec_emit_loop(self.nodes@),
    {
        let mut cpp_code = String::new();
        cpp_code.append(
            "extern \"C\" void do_stuff(const int* __restrict inputs, int* __restrict outputs, int count) {\n",
        );
        cpp_code.append("\tfor (int i = 0; i < count - ");
        let d = usize_to_dec(NUM_REGISTERS - 1);
        cpp_code.append(d.as_str());
        cpp_code.append("; i+= ");
        let d2 = usize_to_dec(NUM_REGISTERS);
        cpp_code.append(d2.as_str());
        cpp_code.append(") {\n");
        let ghost base0 = cpp_code@;
        let mut ii: usize = 0;
        while ii < NUM_INPUTS
            invariant
                ii <= NUM_INPUTS,
                cpp_code@ =~= base0 + spec_loop_ins_upto(ii as int),
            decreases NUM_INPUTS - ii,
        {
            cpp_code.append("\t\tunsigned int in_");
            let d3 = usize_to_dec(ii);
            cpp_code.append(d3.as_str());
            cpp_code.append(" = inputs[i + ");
            let d4 = usize_to_dec(ii);
            cpp_code.append(d4.as_str());
            cpp_code.append("];\n");
            ii = ii + 1;
        }
        let ghost base1 = cpp_code@;
        let mut rr: usize = 0;
        while rr < NUM_REGISTERS
            invariant
                rr <= NUM_REGISTERS,
                cpp_code@ =~= base1 + spec_loop_regs_upto(rr as int),
            decreases NUM_REGISTERS - rr,
        {
            cpp_code.append("\t\tunsigned int r");
            let d5 = usize_to_dec(rr);
            cpp_code.append(d5.as_str());
            cpp_code.append(" = in_");
            let d6 = usize_to_dec(rr % NUM_INPUTS);
            cpp_code.append(d6.as_str());
            cpp_code.append(";\n");
            rr = rr + 1;
        }
        let ghost base2 = cpp_code@;
        let mut k: usize = 0;
        while k < self.nodes.len()
            invariant
                k <= self.nodes@.len(),
                cpp_code@ =~= base2 + spec_loop_nodes_upto(self.nodes@, k as int),
            decreases self.nodes@.len() - k,
        {
            self.nodes[k].write_to_code(&mut cpp_code);
            k = k + 1;
        }
        let ghost base3 = cpp_code@;
        let mut oo: usize = 0;
        while oo < NUM_REGISTERS
            invariant
                oo <= NUM_REGISTERS,
                cpp_code@ =~= base3 + spec_loop_outs_upto(oo as int),
            decreases NUM_REGISTERS - oo,
        {
            cpp_code.append("\t\toutputs[i + ");
            let d7 = usize_to_dec(oo % NUM_INPUTS);
            cpp_code.append(d7.as_str());
            cpp_code.append("] += r");
            let d8 = usize_to_dec(oo);
            cpp_code.append(d8.as_str());
            cpp_code.append(";\n");
            oo = oo + 1;
        }
        cpp_code.append("\t}\n");
        cpp_code.append("}\n");
        proof {
            assert(cpp_code@ =~= spec_emit_loop(self.nodes@));
        }
        cpp_code
    }
}

} // verus!

verus! {

/// Metadata for a compiled loop graph: the loop's inner stride.
#[derive(Debug, Clone, Copy, PartialEq, Eq, Structural)]
pub struct LoopFuzzerCodeMetadata {
    pub loop_inner_stride: usize,
}

/// Per-thread seed for a loop-flavor worker.
pub struct LoopFuzzerThreadInput {
    pub thread_seed: u64,
}

/// The loop-flavor worker state.
pub struct LoopFuzzer {
    pub outer_rng: Rand,
}

/// One captured input buffer.
#[derive(Clone, Debug, PartialEq, Eq)]
pub struct LoopFuzzerInputValues {
    pub vals: Vec<u32>,
}

/// One observed output buffer.
#[derive(Clone, Debug, PartialEq, Eq)]
pub struct LoopFuzzerOutputValues {
    pub vals: Vec<u32>,
}

/// The serialized form of a captured loop input: the length, a newline, and
/// the values each followed by a space.
pub open spec fn spec_serialize_loop_input(vals: Seq<u32>) -> Seq<char> {
    spec_dec_nat(vals.len()) + "\n"@ + crate::input_codec::spec_ser_u32s(vals)
}

impl LoopFuzzerInputValues {
    /// Serialize this input to its text form.
    pub fn write_to_str(&self) -> (r: String)
        ensures
            r@ =~= spec_serialize_loop_input(self.vals@),
    {
        let ghost vals = self.vals@;
        let mut s = usize_to_dec(self.vals.len());
        s.append("\n");
        let ghost base = s@;
        proof {
            assert(vals.skip(0) =~= vals);
        }
        let mut k: usize = 0;
        while k < self.vals.len()
            invariant
                vals == self.vals@,
                k <= vals.len(),
                base + crate::input_codec::spec_ser_u32s(vals) =~= s@
                    + crate::input_codec::spec_ser_u32s(vals.skip(k as int)),
            decreases vals.len() - k,
        {
            let d = u32_to_dec(self.vals[k]);
            s.append(d.as_str());
            s.append(" ");
            proof {
                assert(vals.skip(k as int)[0] == vals[k as int]);
                assert(vals.skip(k as int).drop_first() =~= vals.skip(k as int + 1));
                assert(crate::input_codec::spec_ser_u32s(vals.skip(k as int)) =~= spec_dec_nat(
                    vals[k as int] as nat,
                ) + " "@ + crate::input_codec::spec_ser_u32s(vals.skip(k as int + 1)));
                assert(base + crate::input_codec::spec_ser_u32s(vals) =~= s@
                    + crate::input_codec::spec_ser_u32s(vals.skip(k as int + 1)));
            }
            k = k + 1;
        }
        proof {
            assert(vals.skip(vals.len() as int) =~= Seq::<u32>::empty());
            assert(s@ =~= base + crate::input_codec::spec_ser_u32s(vals));
        }
        s
    }
}

/// How many of the first `k` nodes carry a live (non-tombstone) operation.
pub open spec fn loop_count_live(nodes: Seq<LoopCodegenNode>) -> nat
    decreases nodes.len(),
{
    if nodes.len() == 0 {
        0
    } else {
        loop_count_live(nodes.drop_last()) + if nodes.last().op is NoOp {
            0nat
        } else {
            1nat
        }
    }
}

/// Blanking a live node's operation strictly decreases the live count.
proof fn lemma_loop_count_update(nodes: Seq<LoopCodegenNode>, idx: int, n: LoopCodegenNode)
    requires
        0 <= idx < nodes.len(),
    ensures
        !(nodes[idx].op is NoOp) && n.op is NoOp ==> loop_count_live(nodes.update(idx, n)) + 1
            == loop_count_live(nodes),
        (nodes[idx].op is NoOp) == (n.op is NoOp) ==> loop_count_live(nodes.update(idx, n))
            == loop_count_live(nodes),
    decreases nodes.len(),
{
    let upd = nodes.update(idx, n);
    if idx == nodes.len() - 1 {
        assert(upd.drop_last() =~= nodes.drop_last());
        assert(upd.last() == n);
    } else {
        lemma_loop_count_update(nodes.drop_last(), idx, n);
        assert(upd.drop_last() =~= nodes.drop_last().update(idx, n));
        assert(upd.last() == nodes.last());
    }
}

/// The reduced graph only blanks operations: same length, every node either
/// unchanged or its operation replaced by the tombstone.
pub open spec fn loop_graph_reduced(o: Seq<LoopCodegenNode>, r: Seq<LoopCodegenNode>) -> bool {
    &&& r.len() == o.len()
    &&& forall|i: int|
        0 <= i < o.len() ==> (#[trigger] r[i]) == o[i] || r[i] == LoopCodegenNode {
            op: LoopCodegenOp::NoOp,
            ..o[i]
        }
    &&& forall|i: int| 0 <= i < o.len() && (#[trigger] o[i]).op is NoOp ==> r[i].op is NoOp
}

impl LoopFuzzer {
    /// A fresh worker from its thread seed.
    pub fn new_fuzzer_state(input_data: LoopFuzzerThreadInput) -> (r: Self) {
        LoopFuzzer { outer_rng: Rand::new(input_data.thread_seed) }
    }

    /// Build a new random graph.
    pub fn generate_ctx(&mut self) -> (r: LoopCodegenCtx)
        ensures
            loop_ctx_wf(r.nodes@),
    {
        let seed = self.outer_rng.rand_u64();
        LoopCodegenCtx::new(seed)
    }

    /// Emit the C++ for a graph along with its metadata.
    pub fn generate_cpp_code(&self, ctx: &LoopCodegenCtx) -> (r: (String, LoopFuzzerCodeMetadata))
        ensures
            r.0@ =~= spec_emit_loop(ctx.nodes@),
            r.1.loop_inner_stride == 4,
    {
        let cpp_code = ctx.generate_cpp_code();
        (cpp_code, LoopFuzzerCodeMetadata { loop_inner_stride: 4 })
    }

    /// Draw a random input buffer of 32 to 47 biased values.
    pub fn generate_random_input(&mut self, _code_meta: &LoopFuzzerCodeMetadata) -> (r:
        LoopFuzzerInputValues)
        ensures
            32 <= r.vals@.len() < 48,
    {
        let num_values = (32 + self.outer_rng.rand() % 16) as usize;
        let mut values: Vec<u32> = Vec::new();
        let mut k: usize = 0;
        while k < num_values
            invariant
                32 <= num_values < 48,
                k <= num_values,
                values@.len() == k as int,
            decreases num_values - k,
        {
            let val = match self.outer_rng.rand() % 4 {
                0 => 0,
                1 => 1,
                2 => 0xFFFFFFFFu32,
                _ => self.outer_rng.rand(),
            };
            values.push(val);
            k = k + 1;
        }
        LoopFuzzerInputValues { vals: values }
    }

    /// Two outputs agree when their buffers agree element for element.
    pub fn are_outputs_the_same(
        &self,
        o1: &LoopFuzzerOutputValues,
        o2: &LoopFuzzerOutputValues,
    ) -> (r: bool)
        ensures
            r == (o1.vals@ == o2.vals@),
    {
        if o1.vals.len() != o2.vals.len() {
            proof {
                assert(o1.vals@ != o2.vals@);
            }
            return false;
        }
        let mut k: usize = 0;
        while k < o1.vals.len()
            invariant
                o1.vals@.len() == o2.vals@.len(),
                k <= o1.vals@.len(),
                forall|j: int| 0 <= j < k ==> o1.vals@[j] == o2.vals@[j],
            decreases o1.vals@.len() - k,
        {
            if o1.vals[k] != o2.vals[k] {
                return false;
            }
            k = k + 1;
        }
        proof {
            assert(o1.vals@ =~= o2.vals@);
        }
        true
    }

    /// Serialize a captured input.
    pub fn save_input_to_string(&self, input: &LoopFuzzerInputValues) -> (r: String)
        ensures
            r@ =~= spec_serialize_loop_input(input.vals@),
    {
        input.write_to_str()
    }

    /// How many random inputs each compiled graph is tried on.
    pub fn num_inputs_per_codegen(&self) -> (r: u32)
        ensures
            r == 100,
    {
        100
    }

    /// Node-blanking delta reduction: repeatedly blank each live node whose
    /// removal keeps the failure reproducing, until a pass accepts nothing.
    /// Any properly smaller result was accepted by `func` when it became the
    /// current best, and each accepted step strictly decreases the live-node
    /// count.
    pub fn try_minimize<F: Fn(&LoopFuzzer, &LoopCodegenCtx) -> bool>(
        &self,
        ctx: LoopCodegenCtx,
        func: F,
    ) -> (r: Option<LoopCodegenCtx>)
        requires
            forall|c: &LoopCodegenCtx| #[trigger] call_requires(func, (self, c)),
        ensures
            r is Some,
            loop_graph_reduced(ctx.nodes@, r.unwrap().nodes@),
            r.unwrap().nodes@ == ctx.nodes@ || (loop_count_live(r.unwrap().nodes@)
                < loop_count_live(ctx.nodes@) && exists|c: &LoopCodegenCtx|
                #[trigger] call_ensures(func, (self, c), true) && c.nodes@ == r.unwrap().nodes@),
    {
        let ghost orig = ctx.nodes@;
        let mut best_ctx = ctx;
        let ghost mut accepted: bool = false;
        loop
            invariant
                forall|c: &LoopCodegenCtx| #[trigger] call_requires(func, (self, c)),
                loop_graph_reduced(orig, best_ctx.nodes@),
                !accepted ==> best_ctx.nodes@ == orig,
                accepted ==> loop_count_live(best_ctx.nodes@) < loop_count_live(orig),
                accepted ==> exists|c: &LoopCodegenCtx|
                    #[trigger] call_ensures(func, (self, c), true) && c.nodes@ == best_ctx.nodes@,
            ensures
                loop_graph_reduced(orig, best_ctx.nodes@),
                !accepted ==> best_ctx.nodes@ == orig,
                accepted ==> loop_count_live(best_ctx.nodes@) < loop_count_live(orig),
                accepted ==> exists|c: &LoopCodegenCtx|
                    #[trigger] call_ensures(func, (self, c), true) && c.nodes@ == best_ctx.nodes@,
            decreases loop_count_live(best_ctx.nodes@),
        {
            let mut made_progress = false;
            let ghost best0 = best_ctx.nodes@;
            let num = best_ctx.nodes.len();
            let mut ii: usize = 0;
            while ii < num
                invariant
                    num == best_ctx.nodes@.len(),
                    ii <= num,
                    forall|c: &LoopCodegenCtx| #[trigger] call_requires(func, (self, c)),
                    loop_graph_reduced(orig, best_ctx.nodes@),
                    !made_progress ==> best_ctx.nodes@ == best0,
                    made_progress ==> loop_count_live(best_ctx.nodes@) < loop_count_live(best0),
                    made_progress ==> accepted,
                    !accepted ==> best_ctx.nodes@ == orig,
                    accepted ==> loop_count_live(best_ctx.nodes@) < loop_count_live(orig),
                    accepted ==> exists|c: &LoopCodegenCtx|
                        #[trigger] call_ensures(func, (self, c), true) && c.nodes@
                            == best_ctx.nodes@,
                decreases num - ii,
            {
                let is_noop = match best_ctx.nodes[ii].op {
                    LoopCodegenOp::NoOp => true,
                    _ => false,
                };
                if !is_noop {
                    let ghost before = best_ctx.nodes@;
                    let old_node = best_ctx.nodes[ii];
                    let mut blanked = old_node;
                    blanked.op = LoopCodegenOp::NoOp;
                    let mut new_ctx = best_ctx.clone();
                    new_ctx.nodes[ii] = blanked;
                    {
                        proof {
                            lemma_loop_count_update(new_ctx.nodes@, ii as int, blanked);
                        }
                        if func(self, &new_ctx) {
                            proof {
                                accepted = true;
                            }
                            made_progress = true;
                            proof {
                                lemma_loop_count_update(before, ii as int, blanked);
                                assert forall|i: int|
                                    0 <= i < orig.len() implies (#[trigger] new_ctx.nodes@[i])
                                    == orig[i] || new_ctx.nodes@[i] == LoopCodegenNode {
                                    op: LoopCodegenOp::NoOp,
                                    ..orig[i]
                                } by {
                                    if i != ii {
                                        assert(new_ctx.nodes@[i] == before[i]);
                                    }
                                }
                            }
                            best_ctx = new_ctx;
                            break ;
                        }
                    }
                }
                ii = ii + 1;
            }
            if !made_progress {
                break ;
            }
        }
        Some(best_ctx)
    }
}

} // verus!
