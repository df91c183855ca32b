//! The inline-assembly flavor: a graph is a list of nodes that are either
//! plain C++ statements over unsigned 64-bit variables or `asm` blocks whose
//! register constraints are computed from the statements inside them.
use vstd::prelude::*;

use crate::rand::Rand;
use crate::fmt_num::{spec_dec_nat, usize_to_dec, u32_to_dec};

verus! {

/// The scratch registers an asm statement may name.
#[derive(Clone, Copy, Debug, PartialEq, Eq, Structural)]
pub enum AsmRegister {
    RAX,
    RBX,
    RCX,
    RDX,
    RSI,
    RDI,
    R8,
    R9,
}

/// A stable ordinal for each register; constraint lists are kept in this
/// order.
pub open spec fn spec_reg_ord(r: AsmRegister) -> u32 {
    match r {
        AsmRegister::RAX => 0,
        AsmRegister::RBX => 1,
        AsmRegister::RCX => 2,
        AsmRegister::RDX => 3,
        AsmRegister::RSI => 4,
        AsmRegister::RDI => 5,
        AsmRegister::R8 => 6,
        AsmRegister::R9 => 7,
    }
}

pub fn reg_ord(r: AsmRegister) -> (o: u32)
    ensures
        o == spec_reg_ord(r),
{
    match r {
        AsmRegister::RAX => 0,
        AsmRegister::RBX => 1,
        AsmRegister::RCX => 2,
        AsmRegister::RDX => 3,
        AsmRegister::RSI => 4,
        AsmRegister::RDI => 5,
        AsmRegister::R8 => 6,
        AsmRegister::R9 => 7,
    }
}

pub open spec fn spec_reg_name(o: u32) -> Seq<char> {
    if o == 0 {
        "rax"@
    } else if o == 1 {
        "rbx"@
    } else if o == 2 {
        "rcx"@
    } else if o == 3 {
        "rdx"@
    } else if o == 4 {
        "rsi"@
    } else if o == 5 {
        "rdi"@
    } else if o == 6 {
        "r8"@
    } else {
        "r9"@
    }
}

pub fn reg_name_of_ord(o: u32) -> (r: &'static str)
    requires
        o < 8,
    ensures
        r@ == spec_reg_name(o),
{
    match o {
        0 => "rax",
        1 => "rbx",
        2 => "rcx",
        3 => "rdx",
        4 => "rsi",
        5 => "rdi",
        6 => "r8",
        _ => "r9",
    }
}

impl AsmRegister {
    /// The register's assembly spelling.
    pub fn to_string(&self) -> (r: &'static str)
        ensures
            r@ == spec_reg_name(spec_reg_ord(*self)),
    {
        match self {
            AsmRegister::RAX => "rax",
            AsmRegister::RBX => "rbx",
            AsmRegister::RCX => "rcx",
            AsmRegister::RDX => "rdx",
            AsmRegister::RSI => "rsi",
            AsmRegister::RDI => "rdi",
            AsmRegister::R8 => "r8",
            AsmRegister::R9 => "r9",
        }
    }

    /// Draw a register uniformly.
    pub fn random(rng: &mut Rand) -> (r: Self) {
        let decider = rng.rand() % 8;
        match decider {
            0 => AsmRegister::RAX,
            1 => AsmRegister::RBX,
            2 => AsmRegister::RCX,
            3 => AsmRegister::RDX,
            4 => AsmRegister::RSI,
            5 => AsmRegister::RDI,
            6 => AsmRegister::R8,
            _ => AsmRegister::R9,
        }
    }
}

/// A strictly increasing sequence: the canonical form of a small set.
pub open spec fn sorted_unique(s: Seq<u32>) -> bool {
    forall|i: int, j: int| 0 <= i < j < s.len() ==> s[i] < s[j]
}

/// Insert into a sorted-unique sequence, keeping it sorted and duplicates
/// out.
pub open spec fn spec_sorted_insert(s: Seq<u32>, x: u32) -> Seq<u32>
    decreases s.len(),
{
    if s.len() == 0 {
        seq![x]
    } else if x < s[0] {
        seq![x] + s
    } else if x == s[0] {
        s
    } else {
        seq![s[0]] + spec_sorted_insert(s.drop_first(), x)
    }
}

/// The insertion happens at the first position whose element is not smaller.
proof fn lemma_sorted_insert_at(s: Seq<u32>, x: u32, i: int)
    requires
        sorted_unique(s),
        0 <= i <= s.len(),
        forall|j: int| 0 <= j < i ==> s[j] < x,
        i < s.len() ==> s[i] >= x,
    ensures
        i < s.len() && s[i] == x ==> spec_sorted_insert(s, x) == s,
        (i == s.len() || s[i] > x) ==> spec_sorted_insert(s, x) =~= s.subrange(0, i) + seq![x]
            + s.subrange(i, s.len() as int),
    decreases s.len(),
{
    if s.len() == 0 {
    } else if x < s[0] {
        assert(i == 0);
    } else if x == s[0] {
        assert(i == 0);
    } else {
        let t = s.drop_first();
        assert(sorted_unique(t));
        assert(i >= 1);
        lemma_sorted_insert_at(t, x, i - 1);
        if i < s.len() && s[i] == x {
            assert(t[i - 1] == x);
            assert(spec_sorted_insert(s, x) =~= seq![s[0]] + spec_sorted_insert(t, x));
            assert(seq![s[0]] + t =~= s);
        } else {
            assert(spec_sorted_insert(t, x) =~= t.subrange(0, i - 1) + seq![x] + t.subrange(
                i - 1,
                t.len() as int,
            ));
            assert(spec_sorted_insert(s, x) =~= seq![s[0]] + spec_sorted_insert(t, x));
        }
    }
}

/// Inserting keeps the sequence sorted and unique, and its members are the
/// old members plus the new one.
pub proof fn lemma_sorted_insert_props(s: Seq<u32>, x: u32)
    requires
        sorted_unique(s),
    ensures
        sorted_unique(spec_sorted_insert(s, x)),
        forall|y: u32|
            #[trigger] spec_sorted_insert(s, x).contains(y) ==> (s.contains(y) || y == x),
        forall|y: u32| #[trigger] s.contains(y) ==> spec_sorted_insert(s, x).contains(y),
        spec_sorted_insert(s, x).contains(x),
    decreases s.len(),
{
    if s.len() == 0 {
        assert(spec_sorted_insert(s, x) == seq![x]);
        assert forall|y: u32| spec_sorted_insert(s, x).contains(y) implies (s.contains(y) || y
            == x) by {
            let k = choose|k: int|
                0 <= k < spec_sorted_insert(s, x).len() && spec_sorted_insert(s, x)[k] == y;
        }
        assert(spec_sorted_insert(s, x)[0] == x);
        assert(spec_sorted_insert(s, x).contains(x));
    } else if x < s[0] {
        assert forall|y: u32| spec_sorted_insert(s, x).contains(y) implies (s.contains(y) || y
            == x) by {
            let k = choose|k: int|
                0 <= k < spec_sorted_insert(s, x).len() && spec_sorted_insert(s, x)[k] == y;
            if k > 0 {
                assert(s[k - 1] == y);
            }
        }
        assert forall|y: u32| #[trigger] s.contains(y) implies spec_sorted_insert(
            s,
            x,
        ).contains(y) by {
            let k = choose|k: int| 0 <= k < s.len() && s[k] == y;
            assert(spec_sorted_insert(s, x)[k + 1] == y);
        }
        assert(spec_sorted_insert(s, x)[0] == x);
        assert(spec_sorted_insert(s, x).contains(x));
    } else if x == s[0] {
        assert(s[0] == x);
        assert(s.contains(x));
    } else {
        let t = s.drop_first();
        assert(sorted_unique(t));
        lemma_sorted_insert_props(t, x);
        let r = spec_sorted_insert(s, x);
        let rt = spec_sorted_insert(t, x);
        assert(r == seq![s[0]] + rt);
        assert(rt.contains(x));
        assert forall|i: int, j: int| 0 <= i < j < r.len() implies r[i] < r[j] by {
            if i == 0 {
                assert(r[j] == rt[j - 1]);
                assert(rt.contains(rt[j - 1]));
                if rt[j - 1] != x {
                    assert(t.contains(rt[j - 1]));
                    let k = choose|k: int| 0 <= k < t.len() && t[k] == rt[j - 1];
                    assert(s[k + 1] == rt[j - 1]);
                }
            } else {
                assert(r[i] == rt[i - 1] && r[j] == rt[j - 1]);
            }
        }
        assert forall|y: u32| r.contains(y) implies (s.contains(y) || y == x) by {
            let k = choose|k: int| 0 <= k < r.len() && r[k] == y;
            if k == 0 {
                assert(s[0] == y);
            } else {
                assert(rt[k - 1] == y);
                assert(rt.contains(y));
                if y != x {
                    assert(t.contains(y));
                    let k2 = choose|k2: int| 0 <= k2 < t.len() && t[k2] == y;
                    assert(s[k2 + 1] == y);
                }
            }
        }
        assert forall|y: u32| #[trigger] s.contains(y) implies r.contains(y) by {
            let k = choose|k: int| 0 <= k < s.len() && s[k] == y;
            if k == 0 {
                assert(r[0] == y);
            } else {
                assert(t[k - 1] == y);
                assert(t.contains(y));
                assert(rt.contains(y));
                let k2 = choose|k2: int| 0 <= k2 < rt.len() && rt[k2] == y;
                assert(r[k2 + 1] == y);
            }
        }
        let kx = choose|k: int| 0 <= k < rt.len() && rt[k] == x;
        assert(r[kx + 1] == x);
        assert(r.contains(x));
    }
}

/// Insert `x` into the sorted-unique vector `v`.
pub fn sorted_insert(v: &mut Vec<u32>, x: u32)
    requires
        sorted_unique(old(v)@),
    ensures
        final(v)@ == spec_sorted_insert(old(v)@, x),
        sorted_unique(final(v)@),
{
    let mut i: usize = 0;
    while i < v.len() && v[i] < x
        invariant
            sorted_unique(v@),
            i <= v@.len(),
            forall|j: int| 0 <= j < i ==> v@[j] < x,
        ensures
            i <= v@.len(),
            forall|j: int| 0 <= j < i ==> v@[j] < x,
            i < v@.len() ==> v@[i as int] >= x,
        decreases v@.len() - i,
    {
        i = i + 1;
    }
    proof {
        lemma_sorted_insert_at(v@, x, i as int);
        lemma_sorted_insert_props(v@, x);
    }
    if i < v.len() && v[i] == x {
        return ;
    }
    let ghost before = v@;
    v.insert(i, x);
    proof {
        assert(v@ =~= before.subrange(0, i as int) + seq![x] + before.subrange(
            i as int,
            before.len() as int,
        ));
    }
}

} // verus!

verus! {

/// An operand of an asm statement: a C variable by register, a C variable by
/// memory, or a scratch register.
#[derive(Clone, Copy, Debug, PartialEq, Eq, Structural)]
pub enum AsmCodegenAsmValue {
    CVar(u32),
    CVarPtr(u32),
    AsmReg(AsmRegister),
}

/// The asm operand's text at its use site.
pub open spec fn spec_asm_value_code(v: AsmCodegenAsmValue) -> Seq<char> {
    match v {
        AsmCodegenAsmValue::CVar(i) => "%[c_"@ + spec_dec_nat(i as nat) + "]"@,
        AsmCodegenAsmValue::CVarPtr(i) => "%[p_"@ + spec_dec_nat(i as nat) + "]"@,
        AsmCodegenAsmValue::AsmReg(r) => spec_reg_name(spec_reg_ord(r)),
    }
}

impl AsmCodegenAsmValue {
    /// Append this operand's text.
    pub fn write_to_cpp_code(&self, code: &mut String)
        ensures
            final(code)@ =~= old(code)@ + spec_asm_value_code(*self),
    {
        match self {
            AsmCodegenAsmValue::CVar(var_idx) => {
                code.append("%[c_");
                let d = u32_to_dec(*var_idx);
                code.append(d.as_str());
                code.append("]");
            },
            AsmCodegenAsmValue::CVarPtr(var_idx) => {
                code.append("%[p_");
                let d = u32_to_dec(*var_idx);
                code.append(d.as_str());
                code.append("]");
            },
            AsmCodegenAsmValue::AsmReg(reg) => {
                code.append(reg.to_string());
            },
        }
    }
}

/// The instructions the generator emits.
#[derive(Clone, Copy, Debug, PartialEq, Eq, Structural)]
pub enum AsmCodegenOpcode {
    Lea,
    IMul,
    Mov,
    Xor,
}

pub open spec fn spec_opcode_str(op: AsmCodegenOpcode) -> Seq<char> {
    match op {
        AsmCodegenOpcode::Lea => "lea"@,
        AsmCodegenOpcode::IMul => "imul"@,
        AsmCodegenOpcode::Mov => "mov"@,
        AsmCodegenOpcode::Xor => "xor"@,
    }
}

impl AsmCodegenOpcode {
    pub fn to_opcode_str(&self) -> (r: &'static str)
        ensures
            r@ == spec_opcode_str(*self),
    {
        match self {
            AsmCodegenOpcode::Lea => "lea",
            AsmCodegenOpcode::IMul => "imul",
            AsmCodegenOpcode::Mov => "mov",
            AsmCodegenOpcode::Xor => "xor",
        }
    }
}

/// An asm operand names only C variables the loop body declares: `c_<i>` and
/// `p_<i>` exist exactly for `i` below the loop stride.
pub open spec fn asm_value_vars_ok(v: AsmCodegenAsmValue, stride: u32) -> bool {
    match v {
        AsmCodegenAsmValue::CVar(i) => i < stride,
        AsmCodegenAsmValue::CVarPtr(i) => i < stride,
        AsmCodegenAsmValue::AsmReg(_) => true,
    }
}

/// One asm statement: an opcode, its operand list, which operand it writes,
/// and which operands it reads.
#[derive(Clone, Debug)]
pub struct AsmCodegenAsmStmt {
    pub opcode: AsmCodegenOpcode,
    pub values: Vec<AsmCodegenAsmValue>,
    pub out_val_idx: usize,
    pub in_val_indices: Vec<usize>,
}

/// A statement's operand and index lists stay inside its value list, and an
/// `lea` always has its three operands.
pub open spec fn asm_stmt_wf(s: AsmCodegenAsmStmt) -> bool {
    &&& s.values@.len() >= 1
    &&& (s.opcode is Lea ==> s.values@.len() >= 3)
    &&& s.out_val_idx < s.values@.len()
    &&& forall|k: int| 0 <= k < s.in_val_indices@.len() ==> (#[trigger] s.in_val_indices@[k] as int)
        < s.values@.len()
}

/// Every operand of the statement names only declared C variables.
pub open spec fn asm_stmt_vars_ok(s: AsmCodegenAsmStmt, stride: u32) -> bool {
    forall|k: int| 0 <= k < s.values@.len() ==> asm_value_vars_ok(#[trigger] s.values@[k], stride)
}

/// The text of the non-lea operand list: first operand after a space, the
/// rest after comma-spaces.
pub open spec fn spec_asm_operands_upto(values: Seq<AsmCodegenAsmValue>, k: int) -> Seq<char>
    decreases k,
{
    if k <= 0 {
        Seq::empty()
    } else {
        spec_asm_operands_upto(values, k - 1) + (if k - 1 == 0 {
            " "@
        } else {
            ", "@
        }) + spec_asm_value_code(values[k - 1])
    }
}

/// The text of one asm statement: `lea` uses address syntax, the rest list
/// their operands.
pub open spec fn spec_asm_stmt_code(s: AsmCodegenAsmStmt) -> Seq<char> {
    if s.opcode is Lea {
        "lea "@ + spec_asm_value_code(s.values@[0]) + ", ["@ + spec_asm_value_code(s.values@[1])
            + " + "@ + spec_asm_value_code(s.values@[2]) + "]"@
    } else {
        spec_opcode_str(s.opcode) + spec_asm_operands_upto(s.values@, s.values@.len() as int)
    }
}

impl AsmCodegenAsmStmt {
    /// Append this statement's text.
    pub fn write_to_cpp_code(&self, code: &mut String)
        requires
            asm_stmt_wf(*self),
        ensures
            final(code)@ =~= old(code)@ + spec_asm_stmt_code(*self),
    {
        match self.opcode {
            AsmCodegenOpcode::Lea => {
                code.append("lea ");
                self.values[0].write_to_cpp_code(code);
                code.append(", [");
                self.values[1].write_to_cpp_code(code);
                code.append(" + ");
                self.values[2].write_to_cpp_code(code);
                code.append("]");
            },
            _ => {
                code.append(self.opcode.to_opcode_str());
                let ghost vals = self.values@;
                let mut ii: usize = 0;
                while ii < self.values.len()
                    invariant
                        vals == self.values@,
                        ii <= vals.len(),
                        code@ =~= old(code)@ + spec_opcode_str(self.opcode)
                            + spec_asm_operands_upto(vals, ii as int),
                    decreases vals.len() - ii,
                {
                    if ii == 0 {
                        code.append(" ");
                    } else {
                        code.append(", ");
                    }
                    self.values[ii].write_to_cpp_code(code);
                    ii = ii + 1;
                }
            },
        }
    }
}

/// The register constraints of one asm block, each list sorted and
/// duplicate-free: the C variables written and read by register, the C
/// variables written and read through memory, and the scratch registers
/// touched (as ordinals).
#[derive(Debug, PartialEq, Eq)]
pub struct AsmCodegenRegConstraints {
    pub outputs: Vec<u32>,
    pub inputs: Vec<u32>,
    pub input_ptrs: Vec<u32>,
    pub output_ptrs: Vec<u32>,
    pub temps: Vec<u32>,
}

/// Mathematical image of a constraint record.
pub struct AsmRegConstraintsV {
    pub outputs: Seq<u32>,
    pub inputs: Seq<u32>,
    pub input_ptrs: Seq<u32>,
    pub output_ptrs: Seq<u32>,
    pub temps: Seq<u32>,
}

impl View for AsmCodegenRegConstraints {
    type V = AsmRegConstraintsV;

    open spec fn view(&self) -> AsmRegConstraintsV {
        AsmRegConstraintsV {
            outputs: self.outputs@,
            inputs: self.inputs@,
            input_ptrs: self.input_ptrs@,
            output_ptrs: self.output_ptrs@,
            temps: self.temps@,
        }
    }
}

pub open spec fn constraints_wf(c: AsmRegConstraintsV) -> bool {
    &&& sorted_unique(c.outputs)
    &&& sorted_unique(c.inputs)
    &&& sorted_unique(c.input_ptrs)
    &&& sorted_unique(c.output_ptrs)
    &&& sorted_unique(c.temps)
}

pub open spec fn spec_empty_constraints() -> AsmRegConstraintsV {
    AsmRegConstraintsV {
        outputs: Seq::empty(),
        inputs: Seq::empty(),
        input_ptrs: Seq::empty(),
        output_ptrs: Seq::empty(),
        temps: Seq::empty(),
    }
}

/// Fold the scratch registers of the first `k` operands into `temps`.
pub open spec fn spec_fold_temps(temps: Seq<u32>, values: Seq<AsmCodegenAsmValue>, k: int) -> Seq<
    u32,
>
    decreases k,
{
    if k <= 0 {
        temps
    } else {
        let prev = spec_fold_temps(temps, values, k - 1);
        match values[k - 1] {
            AsmCodegenAsmValue::AsmReg(r) => spec_sorted_insert(prev, spec_reg_ord(r)),
            _ => prev,
        }
    }
}

/// Fold the register and memory reads of the first `k` input operands.
pub open spec fn spec_fold_ins(
    inputs: Seq<u32>,
    input_ptrs: Seq<u32>,
    values: Seq<AsmCodegenAsmValue>,
    indices: Seq<usize>,
    k: int,
) -> (Seq<u32>, Seq<u32>)
    decreases k,
{
    if k <= 0 {
        (inputs, input_ptrs)
    } else {
        let (pi, pp) = spec_fold_ins(inputs, input_ptrs, values, indices, k - 1);
        match values[indices[k - 1] as int] {
            AsmCodegenAsmValue::CVar(v) => (spec_sorted_insert(pi, v), pp),
            AsmCodegenAsmValue::CVarPtr(v) => (pi, spec_sorted_insert(pp, v)),
            _ => (pi, pp),
        }
    }
}

/// The constraint record after folding one whole statement in.
pub open spec fn spec_stmt_constraints(
    c: AsmRegConstraintsV,
    stmt: AsmCodegenAsmStmt,
) -> AsmRegConstraintsV {
    let temps = spec_fold_temps(c.temps, stmt.values@, stmt.values@.len() as int);
    let (outputs, output_ptrs) = match stmt.values@[stmt.out_val_idx as int] {
        AsmCodegenAsmValue::CVar(v) => (spec_sorted_insert(c.outputs, v), c.output_ptrs),
        AsmCodegenAsmValue::CVarPtr(v) => (c.outputs, spec_sorted_insert(c.output_ptrs, v)),
        _ => (c.outputs, c.output_ptrs),
    };
    let (inputs, input_ptrs) = spec_fold_ins(
        c.inputs,
        c.input_ptrs,
        stmt.values@,
        stmt.in_val_indices@,
        stmt.in_val_indices@.len() as int,
    );
    AsmRegConstraintsV { outputs, inputs, input_ptrs, output_ptrs, temps }
}

impl AsmCodegenRegConstraints {
    pub fn new() -> (r: Self)
        ensures
            r@ == spec_empty_constraints(),
            constraints_wf(r@),
    {
        let r = AsmCodegenRegConstraints {
            outputs: Vec::new(),
            inputs: Vec::new(),
            input_ptrs: Vec::new(),
            output_ptrs: Vec::new(),
            temps: Vec::new(),
        };
        proof {
            assert(r@.outputs =~= Seq::<u32>::empty());
            assert(r@.inputs =~= Seq::<u32>::empty());
            assert(r@.input_ptrs =~= Seq::<u32>::empty());
            assert(r@.output_ptrs =~= Seq::<u32>::empty());
            assert(r@.temps =~= Seq::<u32>::empty());
        }
        r
    }

    /// Record one statement: its scratch registers, the variable its output
    /// operand writes, and the variables its input operands read.
    pub fn add_constraints_for_stmt(&mut self, stmt: &AsmCodegenAsmStmt)
        requires
            constraints_wf(old(self)@),
            asm_stmt_wf(*stmt),
        ensures
            final(self)@ == spec_stmt_constraints(old(self)@, *stmt),
            constraints_wf(final(self)@),
    {
        let ghost temps0 = self.temps@;
        let mut k: usize = 0;
        while k < stmt.values.len()
            invariant
                constraints_wf(self@),
                asm_stmt_wf(*stmt),
                k <= stmt.values@.len(),
                self.outputs@ == old(self).outputs@,
                self.inputs@ == old(self).inputs@,
                self.input_ptrs@ == old(self).input_ptrs@,
                self.output_ptrs@ == old(self).output_ptrs@,
                temps0 == old(self).temps@,
                self.temps@ == spec_fold_temps(temps0, stmt.values@, k as int),
            decreases stmt.values@.len() - k,
        {
            match &stmt.values[k] {
                AsmCodegenAsmValue::AsmReg(reg) => {
                    let o = reg_ord(*reg);
                    proof {
                        lemma_sorted_insert_props(self.temps@, o);
                    }
                    sorted_insert(&mut self.temps, o);
                },
                _ => {},
            }
            k = k + 1;
        }
        match &stmt.values[stmt.out_val_idx] {
            AsmCodegenAsmValue::CVar(var_idx) => {
                proof {
                    lemma_sorted_insert_props(self.outputs@, *var_idx);
                }
                sorted_insert(&mut self.outputs, *var_idx);
            },
            AsmCodegenAsmValue::CVarPtr(var_idx) => {
                proof {
                    lemma_sorted_insert_props(self.output_ptrs@, *var_idx);
                }
                sorted_insert(&mut self.output_ptrs, *var_idx);
            },
            _ => {},
        }
        let ghost inputs0 = self.inputs@;
        let ghost input_ptrs0 = self.input_ptrs@;
        let ghost outs1 = self.outputs@;
        let ghost outp1 = self.output_ptrs@;
        let ghost temps1 = self.temps@;
        let mut k2: usize = 0;
        while k2 < stmt.in_val_indices.len()
            invariant
                constraints_wf(self@),
                asm_stmt_wf(*stmt),
                k2 <= stmt.in_val_indices@.len(),
                self.outputs@ == outs1,
                self.output_ptrs@ == outp1,
                self.temps@ == temps1,
                (self.inputs@, self.input_ptrs@) == spec_fold_ins(
                    inputs0,
                    input_ptrs0,
                    stmt.values@,
                    stmt.in_val_indices@,
                    k2 as int,
                ),
            decreases stmt.in_val_indices@.len() - k2,
        {
            let idx = stmt.in_val_indices[k2];
            match &stmt.values[idx] {
                AsmCodegenAsmValue::CVar(var_idx) => {
                    proof {
                        lemma_sorted_insert_props(self.inputs@, *var_idx);
                    }
                    sorted_insert(&mut self.inputs, *var_idx);
                },
                AsmCodegenAsmValue::CVarPtr(var_idx) => {
                    proof {
                        lemma_sorted_insert_props(self.input_ptrs@, *var_idx);
                    }
                    sorted_insert(&mut self.input_ptrs, *var_idx);
                },
                _ => {},
            }
            k2 = k2 + 1;
        }
    }
}

} // verus!

verus! {

/// An asm block: its statement list.
#[derive(Clone, Debug)]
pub struct AsmCodegenNodeAsm {
    pub stmts: Vec<AsmCodegenAsmStmt>,
}

pub open spec fn asm_node_wf(n: AsmCodegenNodeAsm) -> bool {
    forall|i: int| 0 <= i < n.stmts@.len() ==> asm_stmt_wf(#[trigger] n.stmts@[i])
}

/// Scanning statements from `k` on: does some input get read after position
/// `k`, when the output variable `output` has already been written before?
/// The scan mirrors the early-clobber decision: once the output's first write
/// is seen, any later input read forces the early-clobber marker.
pub open spec fn spec_needs_early_clobber(
    stmts: Seq<AsmCodegenAsmStmt>,
    output: u32,
    by_ptr: bool,
    k: int,
    found: bool,
) -> bool
    decreases stmts.len() - k,
{
    if k < 0 || k >= stmts.len() {
        false
    } else {
        let stmt = stmts[k];
        let reads_any = found && exists|j: int|
            0 <= j < stmt.in_val_indices@.len() && (match stmt.values@[(
            #[trigger] stmt.in_val_indices@[j]) as int] {
                AsmCodegenAsmValue::CVar(_) => true,
                AsmCodegenAsmValue::CVarPtr(_) => true,
                _ => false,
            });
        if reads_any {
            true
        } else {
            let writes_here = match stmt.values@[stmt.out_val_idx as int] {
                AsmCodegenAsmValue::CVar(v) => !by_ptr && v == output,
                AsmCodegenAsmValue::CVarPtr(v) => by_ptr && v == output,
                _ => false,
            };
            spec_needs_early_clobber(stmts, output, by_ptr, k + 1, found || writes_here)
        }
    }
}

impl AsmCodegenNodeAsm {
    /// Whether a register output needs the early-clobber marker: some input
    /// is read after the output's first write.
    pub fn does_output_need_early_clobber(&self, output: u32) -> (r: bool)
        requires
            asm_node_wf(*self),
        ensures
            r == spec_needs_early_clobber(self.stmts@, output, false, 0, false),
    {
        let mut has_found_first_output = false;
        let mut k: usize = 0;
        while k < self.stmts.len()
            invariant
                asm_node_wf(*self),
                k <= self.stmts@.len(),
                spec_needs_early_clobber(self.stmts@, output, false, 0, false)
                    == spec_needs_early_clobber(
                    self.stmts@,
                    output,
                    false,
                    k as int,
                    has_found_first_output,
                ),
            decreases self.stmts@.len() - k,
        {
            let stmt = &self.stmts[k];
            if has_found_first_output {
                let mut j: usize = 0;
                let ghost stv = self.stmts@[k as int];
                while j < stmt.in_val_indices.len()
                    invariant
                        asm_stmt_wf(*stmt),
                        k < self.stmts@.len(),
                        stv == *stmt,
                        stv == self.stmts@[k as int],
                        spec_needs_early_clobber(self.stmts@, output, false, 0, false)
                            == spec_needs_early_clobber(self.stmts@, output, false, k as int, true),
                        j <= stmt.in_val_indices@.len(),
                        forall|i: int|
                            0 <= i < j ==> !(match stv.values@[(
                            #[trigger] stv.in_val_indices@[i]) as int] {
                                AsmCodegenAsmValue::CVar(_) => true,
                                AsmCodegenAsmValue::CVarPtr(_) => true,
                                _ => false,
                            }),
                    decreases stmt.in_val_indices@.len() - j,
                {
                    let idx = stmt.in_val_indices[j];
                    match &stmt.values[idx] {
                        AsmCodegenAsmValue::CVar(_) | AsmCodegenAsmValue::CVarPtr(_) => {
                            proof {
                                assert(0 <= j < stv.in_val_indices@.len() && (match stv.values@[(
                                #[trigger] stv.in_val_indices@[j as int]) as int] {
                                    AsmCodegenAsmValue::CVar(_) => true,
                                    AsmCodegenAsmValue::CVarPtr(_) => true,
                                    _ => false,
                                }));
                                assert(exists|j2: int|
                                    0 <= j2 < stv.in_val_indices@.len() && (match stv.values@[(
                                    #[trigger] stv.in_val_indices@[j2]) as int] {
                                        AsmCodegenAsmValue::CVar(_) => true,
                                        AsmCodegenAsmValue::CVarPtr(_) => true,
                                        _ => false,
                                    }));
                                assert(spec_needs_early_clobber(
                                    self.stmts@,
                                    output,
                                    false,
                                    k as int,
                                    true,
                                ));
                            }
                            return true;
                        },
                        _ => {},
                    }
                    j = j + 1;
                }
            }
            let writes_here = match &stmt.values[stmt.out_val_idx] {
                AsmCodegenAsmValue::CVar(v) => *v == output,
                _ => false,
            };
            proof {
                assert(!(has_found_first_output && exists|j: int|
                    0 <= j < self.stmts@[k as int].in_val_indices@.len() && (
                    match self.stmts@[k as int].values@[(#[trigger] self.stmts@[
                    k as int
                    ].in_val_indices@[j]) as int] {
                        AsmCodegenAsmValue::CVar(_) => true,
                        AsmCodegenAsmValue::CVarPtr(_) => true,
                        _ => false,
                    })));
            }
            has_found_first_output = has_found_first_output || writes_here;
            k = k + 1;
        }
        false
    }

    /// The memory-operand analogue.
    pub fn does_output_ptr_need_early_clobber(&self, output: u32) -> (r: bool)
        requires
            asm_node_wf(*self),
        ensures
            r == spec_needs_early_clobber(self.stmts@, output, true, 0, false),
    {
        let mut has_found_first_output = false;
        let mut k: usize = 0;
        while k < self.stmts.len()
            invariant
                asm_node_wf(*self),
                k <= self.stmts@.len(),
                spec_needs_early_clobber(self.stmts@, output, true, 0, false)
                    == spec_needs_early_clobber(
                    self.stmts@,
                    output,
                    true,
                    k as int,
                    has_found_first_output,
                ),
            decreases self.stmts@.len() - k,
        {
            let stmt = &self.stmts[k];
            if has_found_first_output {
                let mut j: usize = 0;
                let ghost stv = self.stmts@[k as int];
                while j < stmt.in_val_indices.len()
                    invariant
                        asm_stmt_wf(*stmt),
                        k < self.stmts@.len(),
                        stv == *stmt,
                        stv == self.stmts@[k as int],
                        spec_needs_early_clobber(self.stmts@, output, true, 0, false)
                            == spec_needs_early_clobber(self.stmts@, output, true, k as int, true),
                        j <= stmt.in_val_indices@.len(),
                        forall|i: int|
                            0 <= i < j ==> !(match stv.values@[(
                            #[trigger] stv.in_val_indices@[i]) as int] {
                                AsmCodegenAsmValue::CVar(_) => true,
                                AsmCodegenAsmValue::CVarPtr(_) => true,
                                _ => false,
                            }),
                    decreases stmt.in_val_indices@.len() - j,
                {
                    let idx = stmt.in_val_indices[j];
                    match &stmt.values[idx] {
                        AsmCodegenAsmValue::CVar(_) | AsmCodegenAsmValue::CVarPtr(_) => {
                            proof {
                                assert(0 <= j < stv.in_val_indices@.len() && (match stv.values@[(
                                #[trigger] stv.in_val_indices@[j as int]) as int] {
                                    AsmCodegenAsmValue::CVar(_) => true,
                                    AsmCodegenAsmValue::CVarPtr(_) => true,
                                    _ => false,
                                }));
                                assert(exists|j2: int|
                                    0 <= j2 < stv.in_val_indices@.len() && (match stv.values@[(
                                    #[trigger] stv.in_val_indices@[j2]) as int] {
                                        AsmCodegenAsmValue::CVar(_) => true,
                                        AsmCodegenAsmValue::CVarPtr(_) => true,
                                        _ => false,
                                    }));
                                assert(spec_needs_early_clobber(
                                    self.stmts@,
                                    output,
                                    true,
                                    k as int,
                                    true,
                                ));
                            }
                            return true;
                        },
                        _ => {},
                    }
                    j = j + 1;
                }
            }
            let writes_here = match &stmt.values[stmt.out_val_idx] {
                AsmCodegenAsmValue::CVarPtr(v) => *v == output,
                _ => false,
            };
            proof {
                assert(!(has_found_first_output && exists|j: int|
                    0 <= j < self.stmts@[k as int].in_val_indices@.len() && (
                    match self.stmts@[k as int].values@[(#[trigger] self.stmts@[
                    k as int
                    ].in_val_indices@[j]) as int] {
                        AsmCodegenAsmValue::CVar(_) => true,
                        AsmCodegenAsmValue::CVarPtr(_) => true,
                        _ => false,
                    })));
            }
            has_found_first_output = has_found_first_output || writes_here;
            k = k + 1;
        }
        false
    }
}

} // verus!

verus! {

/// Whether `x` occurs in `v`.
pub fn vec_contains_u32(v: &Vec<u32>, x: u32) -> (r: bool)
    ensures
        r == v@.contains(x),
{
    let mut i: usize = 0;
    while i < v.len()
        invariant
            i <= v@.len(),
            forall|j: int| 0 <= j < i ==> v@[j] != x,
        decreases v@.len() - i,
    {
        if v[i] == x {
            return true;
        }
        i = i + 1;
    }
    proof {
        if v@.contains(x) {
            let k = choose|k: int| 0 <= k < v@.len() && v@[k] == x;
            assert(false);
        }
    }
    false
}

/// The quoted statement lines of an asm block, `k` of them.
pub open spec fn spec_asm_stmts_text(stmts: Seq<AsmCodegenAsmStmt>, k: int) -> Seq<char>
    decreases k,
{
    if k <= 0 {
        Seq::empty()
    } else {
        spec_asm_stmts_text(stmts, k - 1) + "\n\t\t\t\""@ + spec_asm_stmt_code(stmts[k - 1])
            + "\\n\\t\""@
    }
}

/// The register-output constraint entries, `k` of them.
pub open spec fn spec_asm_outputs_text(
    stmts: Seq<AsmCodegenAsmStmt>,
    c: AsmRegConstraintsV,
    k: int,
) -> Seq<char>
    decreases k,
{
    if k <= 0 {
        Seq::empty()
    } else {
        let o = c.outputs[k - 1];
        let early = spec_needs_early_clobber(stmts, o, false, 0, false);
        let cons = if early {
            if c.inputs.contains(o) {
                "+&r"@
            } else {
                "=&r"@
            }
        } else {
            if c.inputs.contains(o) {
                "+r"@
            } else {
                "=r"@
            }
        };
        spec_asm_outputs_text(stmts, c, k - 1) + (if k - 1 != 0 {
            ", "@
        } else {
            Seq::<char>::empty()
        }) + "[c_"@ + spec_dec_nat(o as nat) + "] \""@ + cons + "\"(c_"@ + spec_dec_nat(o as nat)
            + ")"@
    }
}

/// The memory-output constraint entries, `k` of them.
pub open spec fn spec_asm_outptrs_text(
    stmts: Seq<AsmCodegenAsmStmt>,
    c: AsmRegConstraintsV,
    k: int,
) -> Seq<char>
    decreases k,
{
    if k <= 0 {
        Seq::empty()
    } else {
        let o = c.output_ptrs[k - 1];
        let early = spec_needs_early_clobber(stmts, o, true, 0, false);
        let cons = if early {
            if c.input_ptrs.contains(o) {
                "+m"@
            } else {
                "=&m"@
            }
        } else {
            if c.input_ptrs.contains(o) {
                "+m"@
            } else {
                "=m"@
            }
        };
        spec_asm_outptrs_text(stmts, c, k - 1) + (if c.outputs.len() != 0 || k - 1 != 0 {
            ", "@
        } else {
            Seq::<char>::empty()
        }) + "[p_"@ + spec_dec_nat(o as nat) + "] \""@ + cons + "\"(*&c_"@ + spec_dec_nat(o as nat)
            + ")"@
    }
}

/// The plain-input constraint entries among the first `k` inputs, with the
/// comma state threaded through.
pub open spec fn spec_asm_inputs_text(c: AsmRegConstraintsV, k: int, needs_comma: bool) -> (Seq<
    char,
>, bool)
    decreases k,
{
    if k <= 0 {
        (Seq::empty(), needs_comma)
    } else {
        let (prev, nc) = spec_asm_inputs_text(c, k - 1, needs_comma);
        let v = c.inputs[k - 1];
        if c.outputs.contains(v) {
            (prev, nc)
        } else {
            (
                prev + (if nc {
                    ", "@
                } else {
                    Seq::<char>::empty()
                }) + "[c_"@ + spec_dec_nat(v as nat) + "] \"r\"(c_"@ + spec_dec_nat(v as nat)
                    + ")"@,
                true,
            )
        }
    }
}

/// The memory-input constraint entries among the first `k` pointer inputs.
pub open spec fn spec_asm_inptrs_text(c: AsmRegConstraintsV, k: int, needs_comma: bool) -> (Seq<
    char,
>, bool)
    decreases k,
{
    if k <= 0 {
        (Seq::empty(), needs_comma)
    } else {
        let (prev, nc) = spec_asm_inptrs_text(c, k - 1, needs_comma);
        let v = c.input_ptrs[k - 1];
        if c.output_ptrs.contains(v) {
            (prev, nc)
        } else {
            (
                prev + (if nc {
                    ", "@
                } else {
                    Seq::<char>::empty()
                }) + "[p_"@ + spec_dec_nat(v as nat) + "] \"m\"(*&c_"@ + spec_dec_nat(v as nat)
                    + ")"@,
                true,
            )
        }
    }
}

/// The clobber entries, `k` of them.
pub open spec fn spec_asm_clobbers_text(c: AsmRegConstraintsV, k: int) -> Seq<char>
    decreases k,
{
    if k <= 0 {
        Seq::empty()
    } else {
        spec_asm_clobbers_text(c, k - 1) + (if k - 1 != 0 {
            ", "@
        } else {
            Seq::<char>::empty()
        }) + "\""@ + spec_reg_name(c.temps[k - 1]) + "\""@
    }
}

/// The constraint record an asm block's statements fold to.
pub open spec fn spec_block_constraints(stmts: Seq<AsmCodegenAsmStmt>, k: int) -> AsmRegConstraintsV
    decreases k,
{
    if k <= 0 {
        spec_empty_constraints()
    } else {
        spec_stmt_constraints(spec_block_constraints(stmts, k - 1), stmts[k - 1])
    }
}

/// The whole asm block text: the statements, then the output, input, and
/// clobber constraint sections.
pub open spec fn spec_asm_block_code(n: AsmCodegenNodeAsm) -> Seq<char> {
    let stmts = n.stmts@;
    let c = spec_block_constraints(stmts, stmts.len() as int);
    let (ins1, nc1) = spec_asm_inputs_text(c, c.inputs.len() as int, false);
    let (ins2, _) = spec_asm_inptrs_text(c, c.input_ptrs.len() as int, nc1);
    "asm("@ + spec_asm_stmts_text(stmts, stmts.len() as int) + "\n\t\t\t:"@ + spec_asm_outputs_text(
        stmts,
        c,
        c.outputs.len() as int,
    ) + spec_asm_outptrs_text(stmts, c, c.output_ptrs.len() as int) + "\n\t\t\t:"@ + ins1 + ins2
        + "\n\t\t\t:"@ + spec_asm_clobbers_text(c, c.temps.len() as int) + "\t\t);"@
}


/// Folding statements only ever records register ordinals, so every clobber
/// entry is a valid ordinal.
proof fn lemma_fold_temps_bound(temps: Seq<u32>, values: Seq<AsmCodegenAsmValue>, k: int)
    requires
        sorted_unique(temps),
        forall|i: int| 0 <= i < temps.len() ==> #[trigger] temps[i] < 8,
    ensures
        sorted_unique(spec_fold_temps(temps, values, k)),
        forall|i: int|
            0 <= i < spec_fold_temps(temps, values, k).len() ==> #[trigger] spec_fold_temps(
                temps,
                values,
                k,
            )[i] < 8,
    decreases k,
{
    if k > 0 {
        lemma_fold_temps_bound(temps, values, k - 1);
        let prev = spec_fold_temps(temps, values, k - 1);
        match values[k - 1] {
            AsmCodegenAsmValue::AsmReg(r) => {
                lemma_sorted_insert_props(prev, spec_reg_ord(r));
                let cur = spec_fold_temps(temps, values, k);
                assert forall|i: int| 0 <= i < cur.len() implies #[trigger] cur[i] < 8 by {
                    assert(cur.contains(cur[i]));
                    if cur[i] != spec_reg_ord(r) {
                        assert(prev.contains(cur[i]));
                        let j = choose|j: int| 0 <= j < prev.len() && prev[j] == cur[i];
                    }
                }
            },
            _ => {},
        }
    }
}

/// Every clobber entry of a block's folded constraints is a valid ordinal.
proof fn lemma_block_temps_bound(stmts: Seq<AsmCodegenAsmStmt>, k: int)
    ensures
        sorted_unique(spec_block_constraints(stmts, k).temps),
        forall|i: int|
            0 <= i < spec_block_constraints(stmts, k).temps.len() ==> #[trigger] spec_block_constraints(
                stmts,
                k,
            ).temps[i] < 8,
    decreases k,
{
    if k > 0 {
        lemma_block_temps_bound(stmts, k - 1);
        let c = spec_block_constraints(stmts, k - 1);
        lemma_fold_temps_bound(c.temps, stmts[k - 1].values@, stmts[k - 1].values@.len() as int);
    }
}

impl AsmCodegenNodeAsm {
    /// Append the whole asm block's text.
    #[verifier::rlimit(100)]
    pub fn write_to_cpp_code(&self, code: &mut String)
        requires
            asm_node_wf(*self),
        ensures
            final(code)@ =~= old(code)@ + spec_asm_block_code(*self),
    {
        let ghost stmts = self.stmts@;
        code.append("asm(");
        let ghost base0 = code@;
        let mut k: usize = 0;
        while k < self.stmts.len()
            invariant
                asm_node_wf(*self),
                stmts == self.stmts@,
                k <= stmts.len(),
                code@ =~= base0 + spec_asm_stmts_text(stmts, k as int),
            decreases stmts.len() - k,
        {
            code.append("\n\t\t\t\"");
            self.stmts[k].write_to_cpp_code(code);
            code.append("\\n\\t\"");
            k = k + 1;
        }
        code.append("\n\t\t\t:");
        let mut reg_constraints = AsmCodegenRegConstraints::new();
        let mut k2: usize = 0;
        while k2 < self.stmts.len()
            invariant
                asm_node_wf(*self),
                stmts == self.stmts@,
                k2 <= stmts.len(),
                constraints_wf(reg_constraints@),
                reg_constraints@ == spec_block_constraints(stmts, k2 as int),
            decreases stmts.len() - k2,
        {
            reg_constraints.add_constraints_for_stmt(&self.stmts[k2]);
            k2 = k2 + 1;
        }
        let ghost cv = reg_constraints@;
        let ghost base1 = code@;
        let mut oi: usize = 0;
        while oi < reg_constraints.outputs.len()
            invariant
                asm_node_wf(*self),
                stmts == self.stmts@,
                cv == reg_constraints@,
                oi <= cv.outputs.len(),
                code@ =~= base1 + spec_asm_outputs_text(stmts, cv, oi as int),
            decreases cv.outputs.len() - oi,
        {
            let output = reg_constraints.outputs[oi];
            let is_early_clobber = self.does_output_need_early_clobber(output);
            if oi != 0 {
                code.append(", ");
            }
            let in_inputs = vec_contains_u32(&reg_constraints.inputs, output);
            let constraint = if is_early_clobber {
                if in_inputs {
                    "+&r"
                } else {
                    "=&r"
                }
            } else {
                if in_inputs {
                    "+r"
                } else {
                    "=r"
                }
            };
            code.append("[c_");
            let d = u32_to_dec(output);
            code.append(d.as_str());
            code.append("] \"");
            code.append(constraint);
            code.append("\"(c_");
            code.append(d.as_str());
            code.append(")");
            oi = oi + 1;
        }
        let ghost base2 = code@;
        let mut pi: usize = 0;
        while pi < reg_constraints.output_ptrs.len()
            invariant
                asm_node_wf(*self),
                stmts == self.stmts@,
                cv == reg_constraints@,
                pi <= cv.output_ptrs.len(),
                code@ =~= base2 + spec_asm_outptrs_text(stmts, cv, pi as int),
            decreases cv.output_ptrs.len() - pi,
        {
            let output_ptr = reg_constraints.output_ptrs[pi];
            let is_early_clobber = self.does_output_ptr_need_early_clobber(output_ptr);
            if reg_constraints.outputs.len() != 0 || pi != 0 {
                code.append(", ");
            }
            let in_inputs = vec_contains_u32(&reg_constraints.input_ptrs, output_ptr);
            let constraint = if is_early_clobber {
                if in_inputs {
                    "+m"
                } else {
                    "=&m"
                }
            } else {
                if in_inputs {
                    "+m"
                } else {
                    "=m"
                }
            };
            code.append("[p_");
            let d = u32_to_dec(output_ptr);
            code.append(d.as_str());
            code.append("] \"");
            code.append(constraint);
            code.append("\"(*&c_");
            code.append(d.as_str());
            code.append(")");
            pi = pi + 1;
        }
        code.append("\n\t\t\t:");
        let ghost base3 = code@;
        let mut needs_comma = false;
        let mut ii: usize = 0;
        while ii < reg_constraints.inputs.len()
            invariant
                asm_node_wf(*self),
                stmts == self.stmts@,
                cv == reg_constraints@,
                ii <= cv.inputs.len(),
                (code@, needs_comma) == {
                    let (t, nc) = spec_asm_inputs_text(cv, ii as int, false);
                    (base3 + t, nc)
                },
            decreases cv.inputs.len() - ii,
        {
            let input = reg_constraints.inputs[ii];
            if !vec_contains_u32(&reg_constraints.outputs, input) {
                if needs_comma {
                    code.append(", ");
                }
                code.append("[c_");
                let d = u32_to_dec(input);
                code.append(d.as_str());
                code.append("] \"r\"(c_");
                code.append(d.as_str());
                code.append(")");
                needs_comma = true;
            }
            ii = ii + 1;
        }
        let ghost nc1 = needs_comma;
        let ghost base4 = code@;
        let mut jj: usize = 0;
        while jj < reg_constraints.input_ptrs.len()
            invariant
                asm_node_wf(*self),
                stmts == self.stmts@,
                cv == reg_constraints@,
                jj <= cv.input_ptrs.len(),
                (code@, needs_comma) == {
                    let (t, nc) = spec_asm_inptrs_text(cv, jj as int, nc1);
                    (base4 + t, nc)
                },
            decreases cv.input_ptrs.len() - jj,
        {
            let input_ptr = reg_constraints.input_ptrs[jj];
            if !vec_contains_u32(&reg_constraints.output_ptrs, input_ptr) {
                if needs_comma {
                    code.append(", ");
                }
                code.append("[p_");
                let d = u32_to_dec(input_ptr);
                code.append(d.as_str());
                code.append("] \"m\"(*&c_");
                code.append(d.as_str());
                code.append(")");
                needs_comma = true;
            }
            jj = jj + 1;
        }
        code.append("\n\t\t\t:");
        proof {
            lemma_block_temps_bound(stmts, stmts.len() as int);
        }
        let ghost base5 = code@;
        let mut tt: usize = 0;
        while tt < reg_constraints.temps.len()
            invariant
                asm_node_wf(*self),
                stmts == self.stmts@,
                cv == reg_constraints@,
                tt <= cv.temps.len(),
                forall|i: int| 0 <= i < cv.temps.len() ==> #[trigger] cv.temps[i] < 8,
                code@ =~= base5 + spec_asm_clobbers_text(cv, tt as int),
            decreases cv.temps.len() - tt,
        {
            let tmp = reg_constraints.temps[tt];
            if tt != 0 {
                code.append(", ");
            }
            code.append("\"");
            code.append(reg_name_of_ord(tmp));
            code.append("\"");
            tt = tt + 1;
        }
        code.append("\t\t);");
        proof {
            assert(code@ =~= old(code)@ + spec_asm_block_code(*self));
        }
    }
}

} // verus!

verus! {

/// A plain C++ operation between the loop's variables.
#[derive(Clone, Copy, Debug, PartialEq, Eq, Structural)]
pub enum AsmCodegenCppOp {
    Add,
    Mul,
    Shift(u32),
}

impl AsmCodegenCppOp {
    /// How many variable operands the operation reads.
    pub fn num_inputs(&self) -> (r: usize)
        ensures
            r == (match *self {
                AsmCodegenCppOp::Shift(_) => 1usize,
                _ => 2usize,
            }),
    {
        match *self {
            AsmCodegenCppOp::Add => 2,
            AsmCodegenCppOp::Mul => 2,
            AsmCodegenCppOp::Shift(_) => 1,
        }
    }

    /// Draw an operation; shifts carry a bounded amount.
    pub fn random_op(rng: &mut Rand) -> (r: AsmCodegenCppOp) {
        let decider = rng.rand() % 3;
        match decider {
            0 => AsmCodegenCppOp::Add,
            1 => AsmCodegenCppOp::Mul,
            _ => AsmCodegenCppOp::Shift(rng.rand() % 32),
        }
    }
}

/// One plain C++ statement node.
#[derive(Clone, Debug, PartialEq, Eq)]
pub struct AsmCodegenNodeCpp {
    pub op: AsmCodegenCppOp,
    pub dest_var: u32,
    pub inputs: Vec<u32>,
}

pub open spec fn cpp_node_wf(n: AsmCodegenNodeCpp) -> bool {
    match n.op {
        AsmCodegenCppOp::Shift(_) => n.inputs@.len() == 1,
        _ => n.inputs@.len() == 2,
    }
}

/// The statement a C++ node contributes.
pub open spec fn spec_cpp_node_code(n: AsmCodegenNodeCpp) -> Seq<char> {
    "c_"@ + spec_dec_nat(n.dest_var as nat) + " = "@ + (match n.op {
        AsmCodegenCppOp::Add => "c_"@ + spec_dec_nat(n.inputs@[0] as nat) + " + c_"@ + spec_dec_nat(
            n.inputs@[1] as nat,
        ),
        AsmCodegenCppOp::Mul => "c_"@ + spec_dec_nat(n.inputs@[0] as nat) + " * c_"@ + spec_dec_nat(
            n.inputs@[1] as nat,
        ),
        AsmCodegenCppOp::Shift(amount) => "c_"@ + spec_dec_nat(n.inputs@[0] as nat) + " << "@
            + spec_dec_nat(amount as nat),
    }) + ";"@
}

impl AsmCodegenNodeCpp {
    /// Append this statement's text.
    pub fn write_cpp_code(&self, code: &mut String)
        requires
            cpp_node_wf(*self),
        ensures
            final(code)@ =~= old(code)@ + spec_cpp_node_code(*self),
    {
        code.append("c_");
        let d = u32_to_dec(self.dest_var);
        code.append(d.as_str());
        code.append(" = ");
        match self.op {
            AsmCodegenCppOp::Add => {
                code.append("c_");
                let a = u32_to_dec(self.inputs[0]);
                code.append(a.as_str());
                code.append(" + c_");
                let b = u32_to_dec(self.inputs[1]);
                code.append(b.as_str());
            },
            AsmCodegenCppOp::Mul => {
                code.append("c_");
                let a = u32_to_dec(self.inputs[0]);
                code.append(a.as_str());
                code.append(" * c_");
                let b = u32_to_dec(self.inputs[1]);
                code.append(b.as_str());
            },
            AsmCodegenCppOp::Shift(shift_amount) => {
                code.append("c_");
                let a = u32_to_dec(self.inputs[0]);
                code.append(a.as_str());
                code.append(" << ");
                let b = u32_to_dec(shift_amount);
                code.append(b.as_str());
            },
        }
        code.append(";");
    }
}

/// One node of an inline-asm graph.
#[derive(Clone, Debug)]
pub enum AsmCodegenNode {
    NoOp,
    Asm(AsmCodegenNodeAsm),
    Cpp(AsmCodegenNodeCpp),
}

pub open spec fn asm_graph_node_wf(n: AsmCodegenNode) -> bool {
    match n {
        AsmCodegenNode::NoOp => true,
        AsmCodegenNode::Asm(a) => asm_node_wf(a),
        AsmCodegenNode::Cpp(c) => cpp_node_wf(c),
    }
}

/// Every C-variable index the node mentions — a C++ statement's destination
/// and inputs, or an asm operand's variable — stays below the loop stride,
/// so the emitted line only names variables the loop declares.
pub open spec fn asm_node_vars_ok(n: AsmCodegenNode, stride: u32) -> bool {
    match n {
        AsmCodegenNode::NoOp => true,
        AsmCodegenNode::Asm(a) => forall|k: int|
            0 <= k < a.stmts@.len() ==> asm_stmt_vars_ok(#[trigger] a.stmts@[k], stride),
        AsmCodegenNode::Cpp(c) => c.dest_var < stride && forall|k: int|
            0 <= k < c.inputs@.len() ==> #[trigger] c.inputs@[k] < stride,
    }
}

/// The inline-asm graph: the loop stride and the node list.
#[derive(Debug)]
pub struct AsmCodegenCtx {
    pub loop_stride: u32,
    pub nodes: Vec<AsmCodegenNode>,
}

pub open spec fn asm_ctx_wf(c: AsmCodegenCtx) -> bool {
    &&& 3 <= c.loop_stride <= 26
    &&& forall|i: int| 0 <= i < c.nodes@.len() ==> asm_graph_node_wf(#[trigger] c.nodes@[i])
    &&& forall|i: int|
        0 <= i < c.nodes@.len() ==> asm_node_vars_ok(#[trigger] c.nodes@[i], c.loop_stride)
}

/// The line a node contributes inside the loop body.
pub open spec fn spec_asm_graph_node_code(n: AsmCodegenNode) -> Seq<char> {
    match n {
        AsmCodegenNode::NoOp => Seq::empty(),
        AsmCodegenNode::Asm(a) => "\t\t"@ + spec_asm_block_code(a) + "\n"@,
        AsmCodegenNode::Cpp(c) => "\t\t"@ + spec_cpp_node_code(c) + "\n"@,
    }
}

pub open spec fn spec_asm_nodes_upto(nodes: Seq<AsmCodegenNode>, k: int) -> Seq<char>
    decreases k,
{
    if k <= 0 {
        Seq::empty()
    } else {
        spec_asm_nodes_upto(nodes, k - 1) + spec_asm_graph_node_code(nodes[k - 1])
    }
}

/// The variable loads at the top of the loop body, `k` of them.
pub open spec fn spec_asm_ins_upto(k: int) -> Seq<char>
    decreases k,
{
    if k <= 0 {
        Seq::empty()
    } else {
        spec_asm_ins_upto(k - 1) + "\t\tunsigned long long c_"@ + spec_dec_nat((k - 1) as nat)
            + " = inputs[i + "@ + spec_dec_nat((k - 1) as nat) + "];\n"@
    }
}

/// The output accumulations at the bottom, `k` of them.
pub open spec fn spec_asm_outs_upto(k: int) -> Seq<char>
    decreases k,
{
    if k <= 0 {
        Seq::empty()
    } else {
        spec_asm_outs_upto(k - 1) + "\t\toutputs[i + "@ + spec_dec_nat((k - 1) as nat) + "] += c_"@
            + spec_dec_nat((k - 1) as nat) + ";\n"@
    }
}

/// The complete emitted translation unit for an inline-asm graph.
pub open spec fn spec_emit_asm(c: AsmCodegenCtx) -> Seq<char> {
    "extern \"C\" void do_stuff(const unsigned long long* __restrict inputs, unsigned long long* __restrict outputs, int count) {\n"@
        + "\tfor (int i = 0; i < count - "@ + spec_dec_nat((c.loop_stride - 1) as nat) + "; i+= "@
        + spec_dec_nat(c.loop_stride as nat) + ") {\n"@ + spec_asm_ins_upto(c.loop_stride as int)
        + spec_asm_nodes_upto(c.nodes@, c.nodes@.len() as int) + spec_asm_outs_upto(
        c.loop_stride as int,
    ) + "\t}\n"@ + "}\n"@
}

impl AsmCodegenCtx {
    pub fn get_loop_stride(&self) -> (r: u32)
        ensures
            r == self.loop_stride,
    {
        self.loop_stride
    }

    /// Emit the whole translation unit for this graph.
    pub fn generate_cpp_code(&self) -> (r: String)
        requires
            asm_ctx_wf(*self),
        ensures
            r@ =~= spec_emit_asm(*self),
    {
        let mut cpp_code = String::new();
        cpp_code.append(
            "extern \"C\" void do_stuff(const unsigned long long* __restrict inputs, unsigned long long* __restrict outputs, int count) {\n",
        );
        cpp_code.append("\tfor (int i = 0; i < count - ");
        let d = u32_to_dec(self.loop_stride - 1);
        cpp_code.append(d.as_str());
        cpp_code.append("; i+= ");
        let d2 = u32_to_dec(self.loop_stride);
        cpp_code.append(d2.as_str());
        cpp_code.append(") {\n");
        let ghost base0 = cpp_code@;
        let stride = self.loop_stride as usize;
        let mut ii: usize = 0;
        while ii < stride
            invariant
                ii <= stride,
                cpp_code@ =~= base0 + spec_asm_ins_upto(ii as int),
            decreases stride - ii,
        {
            cpp_code.append("\t\tunsigned long long c_");
            let d3 = usize_to_dec(ii);
            cpp_code.append(d3.as_str());
            cpp_code.append(" = inputs[i + ");
            let d4 = usize_to_dec(ii);
            cpp_code.append(d4.as_str());
            cpp_code.append("];\n");
            ii = ii + 1;
        }
        let ghost base1 = cpp_code@;
        let mut k: usize = 0;
        while k < self.nodes.len()
            invariant
                asm_ctx_wf(*self),
                k <= self.nodes@.len(),
                cpp_code@ =~= base1 + spec_asm_nodes_upto(self.nodes@, k as int),
            decreases self.nodes@.len() - k,
        {
            proof {
                assert(asm_graph_node_wf(self.nodes@[k as int]));
            }
            match &self.nodes[k] {
                AsmCodegenNode::Cpp(cpp) => {
                    cpp_code.append("\t\t");
                    cpp.write_cpp_code(&mut cpp_code);
                    cpp_code.append("\n");
                },
                AsmCodegenNode::Asm(asm_node) => {
                    cpp_code.append("\t\t");
                    asm_node.write_to_cpp_code(&mut cpp_code);
                    cpp_code.append("\n");
                },
                AsmCodegenNode::NoOp => {},
            }
            k = k + 1;
        }
        let ghost base2 = cpp_code@;
        let mut oo: usize = 0;
        while oo < stride
            invariant
                oo <= stride,
                cpp_code@ =~= base2 + spec_asm_outs_upto(oo as int),
            decreases stride - oo,
        {
            cpp_code.append("\t\toutputs[i + ");
            let d5 = usize_to_dec(oo);
            cpp_code.append(d5.as_str());
            cpp_code.append("] += c_");
            let d6 = usize_to_dec(oo);
            cpp_code.append(d6.as_str());
            cpp_code.append(";\n");
            oo = oo + 1;
        }
        cpp_code.append("\t}\n");
        cpp_code.append("}\n");
        proof {
            assert(cpp_code@ =~= spec_emit_asm(*self));
        }
        cpp_code
    }
}

} // verus!

verus! {

/// Draw `len` values below `max`.
pub fn gen_vec_of_length_and_max_val(rng: &mut Rand, len: usize, max: u32) -> (r: Vec<u32>)
    requires
        max >= 1,
    ensures
        r@.len() == len as int,
        forall|i: int| 0 <= i < r@.len() ==> #[trigger] r@[i] < max,
{
    let mut vec: Vec<u32> = Vec::new();
    let mut k: usize = 0;
    while k < len
        invariant
            k <= len,
            vec@.len() == k as int,
            max >= 1,
            forall|i: int| 0 <= i < vec@.len() ==> #[trigger] vec@[i] < max,
        decreases len - k,
    {
        vec.push(rng.rand() % max);
        k = k + 1;
    }
    vec
}

/// Draw one asm operand: a scratch register when allowed (writes introduce
/// new scratch registers, reads reuse written ones), else a C variable by
/// register or, when allowed, by memory.
fn get_random_asm_value(
    written_tmp_registers: &mut Vec<u32>,
    is_output: bool,
    can_be_mem: bool,
    rng: &mut Rand,
    max_reg_access: u32,
) -> (r: AsmCodegenAsmValue)
    requires
        sorted_unique(old(written_tmp_registers)@),
        forall|i: int|
            0 <= i < old(written_tmp_registers)@.len()
                ==> #[trigger] old(written_tmp_registers)@[i] < 8,
        max_reg_access >= 1,
    ensures
        sorted_unique(final(written_tmp_registers)@),
        forall|i: int|
            0 <= i < final(written_tmp_registers)@.len()
                ==> #[trigger] final(written_tmp_registers)@[i] < 8,
        asm_value_vars_ok(r, max_reg_access),
{
    let decider = rng.rand() % 3;
    let have_written = written_tmp_registers.len() > 0;
    if (is_output || have_written) && written_tmp_registers.len() < 6 && decider == 0 {
        if is_output {
            let reg = AsmRegister::random(rng);
            let o = reg_ord(reg);
            proof {
                lemma_sorted_insert_props(written_tmp_registers@, o);
            }
            let ghost before = written_tmp_registers@;
            sorted_insert(written_tmp_registers, o);
            proof {
                assert forall|i: int|
                    0 <= i < written_tmp_registers@.len() implies
                    #[trigger] written_tmp_registers@[i] < 8 by {
                    assert(written_tmp_registers@.contains(written_tmp_registers@[i]));
                    if written_tmp_registers@[i] != o {
                        assert(before.contains(written_tmp_registers@[i]));
                        let j = choose|j: int|
                            0 <= j < before.len() && before[j] == written_tmp_registers@[i];
                    }
                }
            }
            AsmCodegenAsmValue::AsmReg(reg)
        } else {
            let idx = rng.rand_size() % written_tmp_registers.len();
            let o = written_tmp_registers[idx];
            AsmCodegenAsmValue::AsmReg(
                match o {
                    0 => AsmRegister::RAX,
                    1 => AsmRegister::RBX,
                    2 => AsmRegister::RCX,
                    3 => AsmRegister::RDX,
                    4 => AsmRegister::RSI,
                    5 => AsmRegister::RDI,
                    6 => AsmRegister::R8,
                    _ => AsmRegister::R9,
                },
            )
        }
    } else if can_be_mem && decider == 1 {
        AsmCodegenAsmValue::CVarPtr(rng.rand() % max_reg_access)
    } else {
        AsmCodegenAsmValue::CVar(rng.rand() % max_reg_access)
    }
}

impl AsmCodegenCtx {
    /// Build a fresh graph: a drawn loop stride and 10 to 109 nodes, each an
    /// asm block of 1 to 10 statements or a plain C++ statement.
    pub fn new(seed: u64) -> (r: Self)
        ensures
            asm_ctx_wf(r),
            10 <= r.nodes@.len() < 110,
            forall|i: int| 0 <= i < r.nodes@.len() ==> !((#[trigger] r.nodes@[i]) is NoOp),
            forall|i: int|
                0 <= i < r.nodes@.len() ==> ((#[trigger] r.nodes@[i]) matches AsmCodegenNode::Asm(a)
                    ==> 1 <= a.stmts@.len() <= 10),
    {
        let mut rng = Rand::new(seed);
        let loop_stride = rng.rand() % 24 + 3;
        let num_nodes = (rng.rand() % 100 + 10) as usize;
        let max_reg_access = if loop_stride < 9 {
            loop_stride
        } else {
            9
        };
        let mut nodes: Vec<AsmCodegenNode> = Vec::new();
        let mut n: usize = 0;
        while n < num_nodes
            invariant
                3 <= loop_stride <= 26,
                1 <= max_reg_access <= 9,
                max_reg_access <= loop_stride,
                10 <= num_nodes < 110,
                n <= num_nodes,
                nodes@.len() == n as int,
                forall|i: int| 0 <= i < nodes@.len() ==> asm_graph_node_wf(#[trigger] nodes@[i]),
                forall|i: int| 0 <= i < nodes@.len() ==> !((#[trigger] nodes@[i]) is NoOp),
                forall|i: int|
                    0 <= i < nodes@.len() ==> ((#[trigger] nodes@[i]) matches AsmCodegenNode::Asm(a)
                        ==> 1 <= a.stmts@.len() <= 10),
                forall|i: int|
                    0 <= i < nodes@.len() ==> asm_node_vars_ok(#[trigger] nodes@[i], loop_stride),
            decreases num_nodes - n,
        {
            let decider = rng.rand() % 3;
            if decider == 0 {
                let mut written_tmp_registers: Vec<u32> = Vec::new();
                let num_stmts = (rng.rand() % 10 + 1) as usize;
                let mut stmts: Vec<AsmCodegenAsmStmt> = Vec::new();
                let mut s: usize = 0;
                while s < num_stmts
                    invariant
                        3 <= loop_stride <= 26,
                        1 <= max_reg_access <= 9,
                        max_reg_access <= loop_stride,
                        1 <= num_stmts <= 10,
                        s <= num_stmts,
                        stmts@.len() == s as int,
                        sorted_unique(written_tmp_registers@),
                        forall|i: int|
                            0 <= i < written_tmp_registers@.len()
                                ==> #[trigger] written_tmp_registers@[i] < 8,
                        forall|i: int| 0 <= i < stmts@.len() ==> asm_stmt_wf(#[trigger] stmts@[i]),
                        forall|i: int|
                            0 <= i < stmts@.len() ==> asm_stmt_vars_ok(
                                #[trigger] stmts@[i],
                                loop_stride,
                            ),
                    decreases num_stmts - s,
                {
                    let stmt_decider = rng.rand() % 4;
                    let stmt = if stmt_decider == 0 {
                        let in0 = get_random_asm_value(
                            &mut written_tmp_registers,
                            false,
                            false,
                            &mut rng,
                            max_reg_access,
                        );
                        let in1 = get_random_asm_value(
                            &mut written_tmp_registers,
                            false,
                            false,
                            &mut rng,
                            max_reg_access,
                        );
                        let out = get_random_asm_value(
                            &mut written_tmp_registers,
                            true,
                            false,
                            &mut rng,
                            max_reg_access,
                        );
                        let mut values: Vec<AsmCodegenAsmValue> = Vec::new();
                        values.push(out);
                        values.push(in0);
                        values.push(in1);
                        let mut in_idx: Vec<usize> = Vec::new();
                        in_idx.push(1);
                        in_idx.push(2);
                        AsmCodegenAsmStmt {
                            opcode: AsmCodegenOpcode::Lea,
                            values,
                            out_val_idx: 0,
                            in_val_indices: in_idx,
                        }
                    } else if stmt_decider == 1 {
                        let a = get_random_asm_value(
                            &mut written_tmp_registers,
                            false,
                            false,
                            &mut rng,
                            max_reg_access,
                        );
                        let b = get_random_asm_value(
                            &mut written_tmp_registers,
                            false,
                            true,
                            &mut rng,
                            max_reg_access,
                        );
                        let mut values: Vec<AsmCodegenAsmValue> = Vec::new();
                        values.push(a);
                        values.push(b);
                        let mut in_idx: Vec<usize> = Vec::new();
                        in_idx.push(0);
                        in_idx.push(1);
                        AsmCodegenAsmStmt {
                            opcode: AsmCodegenOpcode::IMul,
                            values,
                            out_val_idx: 0,
                            in_val_indices: in_idx,
                        }
                    } else if stmt_decider == 2 {
                        if rng.rand() % 2 == 0 {
                            let in0 = get_random_asm_value(
                                &mut written_tmp_registers,
                                false,
                                false,
                                &mut rng,
                                max_reg_access,
                            );
                            let out = get_random_asm_value(
                                &mut written_tmp_registers,
                                true,
                                true,
                                &mut rng,
                                max_reg_access,
                            );
                            let mut values: Vec<AsmCodegenAsmValue> = Vec::new();
                            values.push(out);
                            values.push(in0);
                            let mut in_idx: Vec<usize> = Vec::new();
                            in_idx.push(1);
                            AsmCodegenAsmStmt {
                                opcode: AsmCodegenOpcode::Mov,
                                values,
                                out_val_idx: 0,
                                in_val_indices: in_idx,
                            }
                        } else {
                            let in0 = get_random_asm_value(
                                &mut written_tmp_registers,
                                false,
                                true,
                                &mut rng,
                                max_reg_access,
                            );
                            let out = get_random_asm_value(
                                &mut written_tmp_registers,
                                true,
                                false,
                                &mut rng,
                                max_reg_access,
                            );
                            let mut values: Vec<AsmCodegenAsmValue> = Vec::new();
                            values.push(out);
                            values.push(in0);
                            let mut in_idx: Vec<usize> = Vec::new();
                            in_idx.push(1);
                            AsmCodegenAsmStmt {
                                opcode: AsmCodegenOpcode::Mov,
                                values,
                                out_val_idx: 0,
                                in_val_indices: in_idx,
                            }
                        }
                    } else {
                        let a = get_random_asm_value(
                            &mut written_tmp_registers,
                            false,
                            false,
                            &mut rng,
                            max_reg_access,
                        );
                        let b = get_random_asm_value(
                            &mut written_tmp_registers,
                            false,
                            true,
                            &mut rng,
                            max_reg_access,
                        );
                        let mut values: Vec<AsmCodegenAsmValue> = Vec::new();
                        values.push(a);
                        values.push(b);
                        let mut in_idx: Vec<usize> = Vec::new();
                        in_idx.push(0);
                        in_idx.push(1);
                        AsmCodegenAsmStmt {
                            opcode: AsmCodegenOpcode::Xor,
                            values,
                            out_val_idx: 0,
                            in_val_indices: in_idx,
                        }
                    };
                    stmts.push(stmt);
                    s = s + 1;
                }
                nodes.push(AsmCodegenNode::Asm(AsmCodegenNodeAsm { stmts }));
            } else {
                let op = AsmCodegenCppOp::random_op(&mut rng);
                let num_inputs = op.num_inputs();
                let cpp = AsmCodegenNodeCpp {
                    op,
                    dest_var: rng.rand() % loop_stride,
                    inputs: gen_vec_of_length_and_max_val(&mut rng, num_inputs, loop_stride),
                };
                nodes.push(AsmCodegenNode::Cpp(cpp));
            }
            n = n + 1;
        }
        AsmCodegenCtx { loop_stride, nodes }
    }
}

} // verus!

verus! {

/// Mathematical image of one statement.
pub struct AsmStmtV {
    pub opcode: AsmCodegenOpcode,
    pub values: Seq<AsmCodegenAsmValue>,
    pub out_val_idx: usize,
    pub in_val_indices: Seq<usize>,
}

pub open spec fn asm_stmt_v(s: AsmCodegenAsmStmt) -> AsmStmtV {
    AsmStmtV {
        opcode: s.opcode,
        values: s.values@,
        out_val_idx: s.out_val_idx,
        in_val_indices: s.in_val_indices@,
    }
}

/// Mathematical image of one graph node.
pub enum AsmGraphNodeV {
    NoOp,
    Asm(Seq<AsmStmtV>),
    Cpp(AsmCodegenCppOp, u32, Seq<u32>),
}

pub open spec fn asm_graph_node_v(n: AsmCodegenNode) -> AsmGraphNodeV {
    match n {
        AsmCodegenNode::NoOp => AsmGraphNodeV::NoOp,
        AsmCodegenNode::Asm(a) => AsmGraphNodeV::Asm(
            Seq::new(a.stmts@.len(), |i: int| asm_stmt_v(a.stmts@[i])),
        ),
        AsmCodegenNode::Cpp(c) => AsmGraphNodeV::Cpp(c.op, c.dest_var, c.inputs@),
    }
}

pub open spec fn asm_nodes_v(nodes: Seq<AsmCodegenNode>) -> Seq<AsmGraphNodeV> {
    Seq::new(nodes.len(), |i: int| asm_graph_node_v(nodes[i]))
}

/// The reduced graph blanks whole nodes or truncates the tail of an asm
/// block's statement list, nothing more.
pub open spec fn asm_graph_reduced(o: Seq<AsmGraphNodeV>, r: Seq<AsmGraphNodeV>) -> bool {
    &&& r.len() == o.len()
    &&& forall|i: int|
        0 <= i < o.len() ==> ((#[trigger] r[i]) == o[i] || r[i] is NoOp || (match (o[i], r[i]) {
            (AsmGraphNodeV::Asm(s), AsmGraphNodeV::Asm(s2)) => s2.len() <= s.len() && s2
                == s.subrange(0, s2.len() as int),
            _ => false,
        }))
    &&& forall|i: int| 0 <= i < o.len() && (#[trigger] o[i]) is NoOp ==> r[i] is NoOp
}

/// How many nodes are not tombstones.
pub open spec fn asm_count_live(nodes: Seq<AsmCodegenNode>) -> nat
    decreases nodes.len(),
{
    if nodes.len() == 0 {
        0
    } else {
        asm_count_live(nodes.drop_last()) + if nodes.last() is NoOp {
            0nat
        } else {
            1nat
        }
    }
}

proof fn lemma_asm_count_update(nodes: Seq<AsmCodegenNode>, idx: int, n: AsmCodegenNode)
    requires
        0 <= idx < nodes.len(),
    ensures
        !(nodes[idx] is NoOp) && n is NoOp ==> asm_count_live(nodes.update(idx, n)) + 1
            == asm_count_live(nodes),
        (nodes[idx] is NoOp) == (n is NoOp) ==> asm_count_live(nodes.update(idx, n))
            == asm_count_live(nodes),
    decreases nodes.len(),
{
    let upd = nodes.update(idx, n);
    if idx == nodes.len() - 1 {
        assert(upd.drop_last() =~= nodes.drop_last());
        assert(upd.last() == n);
    } else {
        lemma_asm_count_update(nodes.drop_last(), idx, n);
        assert(upd.drop_last() =~= nodes.drop_last().update(idx, n));
        assert(upd.last() == nodes.last());
    }
}

/// Per-thread seed for an inline-asm worker.
pub struct AsmFuzzerThreadInput {
    pub thread_seed: u64,
}

/// The inline-asm worker state.
pub struct AsmFuzzer {
    pub outer_rng: Rand,
}

/// Metadata for a compiled asm graph: its loop stride.
#[derive(Debug, Clone, Copy, PartialEq, Eq, Structural)]
pub struct AsmFuzzerCodeMetadata {
    pub loop_stride: u32,
}

/// One captured input buffer.
#[derive(Clone, Debug, PartialEq, Eq)]
pub struct AsmFuzzerInputValues {
    pub vals: Vec<u64>,
}

/// One observed output buffer.
#[derive(Clone, Debug, PartialEq, Eq)]
pub struct AsmFuzzerOutputValues {
    pub vals: Vec<u64>,
}

/// The serialized form of a captured asm input.
pub open spec fn spec_serialize_asm_input(vals: Seq<u64>) -> Seq<char> {
    spec_dec_nat(vals.len()) + "\n"@ + crate::input_codec::spec_ser_u64s(vals)
}

impl AsmFuzzerInputValues {
    /// Serialize this input to its text form.
    pub fn write_to_str(&self) -> (r: String)
        ensures
            r@ =~= spec_serialize_asm_input(self.vals@),
    {
        let ghost vals = self.vals@;
        let mut s = usize_to_dec(self.vals.len());
        s.append("\n");
        let ghost base = s@;
        proof {
            assert(vals.skip(0) =~= vals);
        }
        let mut k: usize = 0;
        while k < self.vals.len()
            invariant
                vals == self.vals@,
                k <= vals.len(),
                base + crate::input_codec::spec_ser_u64s(vals) =~= s@
                    + crate::input_codec::spec_ser_u64s(vals.skip(k as int)),
            decreases vals.len() - k,
        {
            let d = crate::fmt_num::u64_to_dec(self.vals[k]);
            s.append(d.as_str());
            s.append(" ");
            proof {
                assert(vals.skip(k as int)[0] == vals[k as int]);
                assert(vals.skip(k as int).drop_first() =~= vals.skip(k as int + 1));
                assert(crate::input_codec::spec_ser_u64s(vals.skip(k as int)) =~= spec_dec_nat(
                    vals[k as int] as nat,
                ) + " "@ + crate::input_codec::spec_ser_u64s(vals.skip(k as int + 1)));
                assert(base + crate::input_codec::spec_ser_u64s(vals) =~= s@
                    + crate::input_codec::spec_ser_u64s(vals.skip(k as int + 1)));
            }
            k = k + 1;
        }
        proof {
            assert(vals.skip(vals.len() as int) =~= Seq::<u64>::empty());
            assert(s@ =~= base + crate::input_codec::spec_ser_u64s(vals));
        }
        s
    }
}

impl AsmFuzzer {
    /// A fresh worker from its thread seed.
    pub fn new_fuzzer_state(input_data: AsmFuzzerThreadInput) -> (r: Self) {
        AsmFuzzer { outer_rng: Rand::new(input_data.thread_seed) }
    }

    /// Build a new random graph.
    pub fn generate_ctx(&mut self) -> (r: AsmCodegenCtx)
        ensures
            asm_ctx_wf(r),
    {
        let next_seed = self.outer_rng.rand_u64();
        AsmCodegenCtx::new(next_seed)
    }

    /// Emit the C++ for a graph along with its metadata.
    pub fn generate_cpp_code(&self, ctx: &AsmCodegenCtx) -> (r: (String, AsmFuzzerCodeMetadata))
        requires
            asm_ctx_wf(*ctx),
        ensures
            r.0@ =~= spec_emit_asm(*ctx),
            r.1.loop_stride == ctx.loop_stride,
    {
        let code = ctx.generate_cpp_code();
        (code, AsmFuzzerCodeMetadata { loop_stride: ctx.get_loop_stride() })
    }

    /// Draw a random input buffer of 32 to 63 biased values.
    pub fn generate_random_input(&mut self, _code_meta: &AsmFuzzerCodeMetadata) -> (r:
        AsmFuzzerInputValues)
        ensures
            32 <= r.vals@.len() < 64,
    {
        let num_values = (32 + self.outer_rng.rand() % 32) as usize;
        let mut values: Vec<u64> = Vec::new();
        let mut k: usize = 0;
        while k < num_values
            invariant
                32 <= num_values < 64,
                k <= num_values,
                values@.len() == k as int,
            decreases num_values - k,
        {
            let val = match self.outer_rng.rand() % 4 {
                0 => 0,
                1 => 1,
                2 => 0xFFFFFFFFFFFFFFFFu64,
                _ => self.outer_rng.rand_u64(),
            };
            values.push(val);
            k = k + 1;
        }
        AsmFuzzerInputValues { vals: values }
    }

    /// Two outputs agree when their buffers agree element for element.
    pub fn are_outputs_the_same(
        &self,
        o1: &AsmFuzzerOutputValues,
        o2: &AsmFuzzerOutputValues,
    ) -> (r: bool)
        ensures
            r == (o1.vals@ == o2.vals@),
    {
        if o1.vals.len() != o2.vals.len() {
            proof {
                assert(o1.vals@ != o2.vals@);
            }
            return false;
        }
        let mut k: usize = 0;
        while k < o1.vals.len()
            invariant
                o1.vals@.len() == o2.vals@.len(),
                k <= o1.vals@.len(),
                forall|j: int| 0 <= j < k ==> o1.vals@[j] == o2.vals@[j],
            decreases o1.vals@.len() - k,
        {
            if o1.vals[k] != o2.vals[k] {
                return false;
            }
            k = k + 1;
        }
        proof {
            assert(o1.vals@ =~= o2.vals@);
        }
        true
    }

    /// Serialize a captured input.
    pub fn save_input_to_string(&self, input: &AsmFuzzerInputValues) -> (r: String)
        ensures
            r@ =~= spec_serialize_asm_input(input.vals@),
    {
        input.write_to_str()
    }

    /// Serialize code metadata: just the stride.
    pub fn save_meta_to_string(&self, meta: &AsmFuzzerCodeMetadata) -> (r: String)
        ensures
            r@ =~= spec_dec_nat(meta.loop_stride as nat),
    {
        u32_to_dec(meta.loop_stride)
    }

    /// How many random inputs each compiled graph is tried on.
    pub fn num_inputs_per_codegen(&self) -> (r: u32)
        ensures
            r == 1000,
    {
        1000
    }
}

} // verus!

verus! {

impl AsmFuzzer {
    /// Delta reduction for asm graphs: first blank whole nodes while the
    /// failure keeps reproducing, then truncate each asm block's statement
    /// list from the tail.  Any properly reduced result was accepted by
    /// `func` when it became the current best.
    pub fn try_minimize<F: Fn(&AsmFuzzer, &AsmCodegenCtx) -> bool>(
        &self,
        ctx: AsmCodegenCtx,
        func: F,
    ) -> (r: Option<AsmCodegenCtx>)
        requires
            asm_ctx_wf(ctx),
            forall|c: &AsmCodegenCtx| #[trigger] call_requires(func, (self, c)),
        ensures
            r is Some,
            asm_ctx_wf(r.unwrap()),
            r.unwrap().loop_stride == ctx.loop_stride,
            asm_graph_reduced(asm_nodes_v(ctx.nodes@), asm_nodes_v(r.unwrap().nodes@)),
            asm_nodes_v(r.unwrap().nodes@) == asm_nodes_v(ctx.nodes@) || exists|c: &AsmCodegenCtx|
                #[trigger] call_ensures(func, (self, c), true) && asm_nodes_v(c.nodes@)
                    == asm_nodes_v(r.unwrap().nodes@) && c.loop_stride == ctx.loop_stride,
        decreases
            0int,
    {
        let ghost orig = asm_nodes_v(ctx.nodes@);
        let ghost stride = ctx.loop_stride;
        let mut best_ctx = ctx;
        let ghost mut accepted: bool = false;
        loop
            invariant
                forall|c: &AsmCodegenCtx| #[trigger] call_requires(func, (self, c)),
                asm_ctx_wf(best_ctx),
                best_ctx.loop_stride == stride,
                asm_graph_reduced(orig, asm_nodes_v(best_ctx.nodes@)),
                !accepted ==> asm_nodes_v(best_ctx.nodes@) == orig,
                accepted ==> asm_count_live(best_ctx.nodes@) < asm_count_live_of(orig),
                accepted ==> exists|c: &AsmCodegenCtx|
                    #[trigger] call_ensures(func, (self, c), true) && asm_nodes_v(c.nodes@)
                        == asm_nodes_v(best_ctx.nodes@) && c.loop_stride == stride,
            ensures
                asm_ctx_wf(best_ctx),
                best_ctx.loop_stride == stride,
                asm_graph_reduced(orig, asm_nodes_v(best_ctx.nodes@)),
                !accepted ==> asm_nodes_v(best_ctx.nodes@) == orig,
                accepted ==> exists|c: &AsmCodegenCtx|
                    #[trigger] call_ensures(func, (self, c), true) && asm_nodes_v(c.nodes@)
                        == asm_nodes_v(best_ctx.nodes@) && c.loop_stride == stride,
            decreases asm_count_live(best_ctx.nodes@),
        {
            let mut made_progress = false;
            let num = best_ctx.nodes.len();
            let ghost best0 = asm_nodes_v(best_ctx.nodes@);
            let ghost live0 = asm_count_live(best_ctx.nodes@);
            let mut ii: usize = 0;
            while ii < num
                invariant
                    forall|c: &AsmCodegenCtx| #[trigger] call_requires(func, (self, c)),
                    num == best_ctx.nodes@.len(),
                    ii <= num,
                    asm_ctx_wf(best_ctx),
                    best_ctx.loop_stride == stride,
                    asm_graph_reduced(orig, asm_nodes_v(best_ctx.nodes@)),
                    !made_progress ==> asm_nodes_v(best_ctx.nodes@) == best0 && asm_count_live(
                        best_ctx.nodes@,
                    ) == live0,
                    made_progress ==> asm_count_live(best_ctx.nodes@) < live0,
                    made_progress ==> accepted,
                    !accepted ==> asm_nodes_v(best_ctx.nodes@) == orig,
                    accepted ==> asm_count_live(best_ctx.nodes@) < asm_count_live_of(orig),
                    accepted ==> exists|c: &AsmCodegenCtx|
                        #[trigger] call_ensures(func, (self, c), true) && asm_nodes_v(c.nodes@)
                            == asm_nodes_v(best_ctx.nodes@) && c.loop_stride == stride,
                decreases num - ii,
            {
                let is_noop = match &best_ctx.nodes[ii] {
                    AsmCodegenNode::NoOp => true,
                    _ => false,
                };
                if !is_noop {
                    let ghost before = best_ctx.nodes@;
                    let old_node = best_ctx.nodes.remove(ii);
                    best_ctx.nodes.insert(ii, AsmCodegenNode::NoOp);
                    proof {
                        assert(best_ctx.nodes@ =~= before.update(ii as int, AsmCodegenNode::NoOp));
                        lemma_asm_count_update(before, ii as int, AsmCodegenNode::NoOp);
                    }
                    if func(self, &best_ctx) {
                        proof {
                            let acc0 = accepted;
                            lemma_asm_count_v(before);
                            if !acc0 {
                                assert(asm_nodes_v(before) == orig);
                                assert(asm_count_live(before) == asm_count_live_of(orig));
                            }
                            accepted = true;
                            assert(call_ensures(func, (self, &best_ctx), true));
                            assert forall|i: int|
                                0 <= i < orig.len() implies ((#[trigger] asm_nodes_v(
                                best_ctx.nodes@,
                            )[i]) == orig[i] || asm_nodes_v(best_ctx.nodes@)[i] is NoOp || (
                            match (orig[i], asm_nodes_v(best_ctx.nodes@)[i]) {
                                (AsmGraphNodeV::Asm(s), AsmGraphNodeV::Asm(s2)) => s2.len()
                                    <= s.len() && s2 == s.subrange(0, s2.len() as int),
                                _ => false,
                            })) by {
                                if i != ii {
                                    assert(asm_nodes_v(best_ctx.nodes@)[i] == asm_nodes_v(
                                        before,
                                    )[i]);
                                }
                            }
                        }
                        made_progress = true;
                        break ;
                    } else {
                        let ghost mid = best_ctx.nodes@;
                        let _ = best_ctx.nodes.remove(ii);
                        best_ctx.nodes.insert(ii, old_node);
                        proof {
                            assert(best_ctx.nodes@ =~= before);
                        }
                    }
                }
                ii = ii + 1;
            }
            if !made_progress {
                break ;
            }
        }
        Some(best_ctx)
    }
}

/// An alias so the invariants above can speak of the original's live count.
pub open spec fn asm_count_live_of(v: Seq<AsmGraphNodeV>) -> nat
    decreases v.len(),
{
    if v.len() == 0 {
        0
    } else {
        asm_count_live_of(v.drop_last()) + if v.last() is NoOp {
            0nat
        } else {
            1nat
        }
    }
}

/// The live counts of a graph and of its image agree.
pub proof fn lemma_asm_count_v(nodes: Seq<AsmCodegenNode>)
    ensures
        asm_count_live(nodes) == asm_count_live_of(asm_nodes_v(nodes)),
    decreases nodes.len(),
{
    if nodes.len() > 0 {
        lemma_asm_count_v(nodes.drop_last());
        assert(asm_nodes_v(nodes).drop_last() =~= asm_nodes_v(nodes.drop_last()));
        assert(asm_nodes_v(nodes).last() == asm_graph_node_v(nodes.last()));
        assert((nodes.last() is NoOp) == (asm_nodes_v(nodes).last() is NoOp));
    }
}

} // verus!
