//! What host operations do to the host's registers and the emulated ones.

use vstd::prelude::*;
use crate::ee::alu::{divided, flag, high32, less, low32, product, sext32, sra32, sra64, Reg};
use crate::ee::cop0::{cop0_written, STATUS, STATUS_EIE};
use crate::ee::cpu::{CpuModel, FpuCall};
use super::emit::{Alu, HostOp, HostReg, ShiftKind, Test};

verus! {

/// The host's registers.
pub struct Regs {
    pub rax: u64,
    pub rcx: u64,
    pub rdx: u64,
    pub r13: u64,
    pub r14: u64,
}

/// The host's registers and the emulated ones. `single` is the host's
/// floating point.
pub struct Core {
    pub r: Regs,
    pub c: CpuModel,
    pub single: spec_fn(FpuCall) -> u32,
}

pub open spec fn alu64(op: Alu, a: u64, b: u64) -> u64 {
    match op {
        Alu::Plus => a.wrapping_add(b),
        Alu::Minus => a.wrapping_sub(b),
        Alu::And => a & b,
        Alu::Or => a | b,
        Alu::Xor => a ^ b,
        Alu::Nor => !(a | b),
    }
}

pub open spec fn alu32(op: Alu, a: u32, b: u32) -> u32 {
    match op {
        Alu::Plus => a.wrapping_add(b),
        Alu::Minus => a.wrapping_sub(b),
        Alu::And => a & b,
        Alu::Or => a | b,
        Alu::Xor => a ^ b,
        Alu::Nor => !(a | b),
    }
}

pub open spec fn shift32(kind: ShiftKind, v: u32, n: u32) -> u32 {
    match kind {
        ShiftKind::Left => v << n,
        ShiftKind::Right => v >> n,
        ShiftKind::Arithmetic => sra32(v, n),
    }
}

pub open spec fn shift64(kind: ShiftKind, v: u64, n: u32) -> u64 {
    match kind {
        ShiftKind::Left => v << n,
        ShiftKind::Right => v >> n,
        ShiftKind::Arithmetic => sra64(v, n),
    }
}

pub open spec fn tested(how: Test, a: u64, b: u64) -> bool {
    match how {
        Test::Equal => a == b,
        Test::NotEqual => a != b,
        Test::Less => less(a, b),
        Test::NotLess => !less(a, b),
        Test::LessOrEqual => !less(b, a),
        Test::Greater => less(b, a),
        Test::Below => a < b,
    }
}

/// Operations on host registers alone.
pub open spec fn on_registers(op: HostOp) -> bool {
    match op {
        HostOp::Put { .. } | HostOp::Extend { .. } | HostOp::AddWord { .. } | HostOp::AddDouble { .. }
        | HostOp::LogicImm { .. } | HostOp::Word { .. } | HostOp::Double { .. } | HostOp::ShiftWord { .. }
        | HostOp::ShiftWordCl { .. } | HostOp::ShiftDouble { .. } | HostOp::ShiftDoubleCl { .. } | HostOp::Compare { .. }
        | HostOp::CompareImm { .. } | HostOp::Multiply { .. } | HostOp::Divide { .. } | HostOp::AlignQuad
        | HostOp::AndWord { .. } | HostOp::XorWord { .. } => true,
        _ => false,
    }
}

/// Operations that need the bus.
pub open spec fn on_bus(op: HostOp) -> bool {
    match op {
        HostOp::Cop0Read { .. } | HostOp::Read { .. } | HostOp::Write { .. } | HostOp::ReadQuad { .. }
        | HostOp::ReadQuadVu { .. } | HostOp::WriteQuad { .. } | HostOp::WriteQuadVu { .. } => true,
        _ => false,
    }
}

impl Regs {
    pub open spec fn get(self, r: HostReg) -> u64 {
        match r {
            HostReg::Rax => self.rax,
            HostReg::Rcx => self.rcx,
            HostReg::Rdx => self.rdx,
            HostReg::R13 => self.r13,
            HostReg::R14 => self.r14,
        }
    }

    pub open spec fn set(self, r: HostReg, v: u64) -> Regs {
        match r {
            HostReg::Rax => Regs { rax: v, ..self },
            HostReg::Rcx => Regs { rcx: v, ..self },
            HostReg::Rdx => Regs { rdx: v, ..self },
            HostReg::R13 => Regs { r13: v, ..self },
            HostReg::R14 => Regs { r14: v, ..self },
        }
    }

    pub open spec fn eax(self) -> u32 {
        low32(self.rax)
    }

    /// One operation on host registers alone.
    #[verifier::opaque]
    pub open spec fn computed(self, op: HostOp) -> Regs {
        match op {
            HostOp::Put { reg, v } => self.set(reg, v),
            HostOp::Extend { reg } => self.set(reg, sext32(low32(self.get(reg)))),
            HostOp::AddWord { v } => Regs { rax: self.eax().wrapping_add(v) as u64, ..self },
            HostOp::AddDouble { v } => Regs { rax: self.rax.wrapping_add(v), ..self },
            HostOp::LogicImm { op, v } => Regs { rax: alu64(op, self.rax, v as u64), ..self },
            HostOp::Word { op } => Regs { rax: alu32(op, self.eax(), low32(self.rcx)) as u64, ..self },
            HostOp::Double { op } => Regs { rax: alu64(op, self.rax, self.rcx), ..self },
            HostOp::ShiftWord { kind, n } => Regs { rax: shift32(kind, self.eax(), n) as u64, ..self },
            HostOp::ShiftWordCl { kind } => Regs {
                rax: shift32(kind, self.eax(), low32(self.rcx) % 32) as u64,
                ..self
            },
            HostOp::ShiftDouble { kind, n } => Regs { rax: shift64(kind, self.rax, n), ..self },
            HostOp::ShiftDoubleCl { kind } => Regs { rax: shift64(kind, self.rax, low32(self.rcx) % 64), ..self },
            HostOp::Compare { to, how, left, right } => self.set(
                to,
                flag(tested(how, self.get(left), self.get(right))),
            ),
            HostOp::CompareImm { to, how, left, v } => self.set(to, flag(tested(how, self.get(left), v))),
            HostOp::Multiply { signed } => {
                let p = product(self.eax(), low32(self.rcx), signed);
                Regs { rax: low32(p) as u64, rdx: high32(p) as u64, ..self }
            },
            HostOp::Divide { signed } => {
                let q = divided(self.eax(), low32(self.rcx), signed);
                Regs { rax: low32(q.lo) as u64, rdx: low32(q.hi) as u64, ..self }
            },
            HostOp::AlignQuad => Regs { rax: (self.eax() - self.eax() % 16) as u64, ..self },
            HostOp::AndWord { v } => Regs { rax: (self.eax() & v) as u64, ..self },
            HostOp::XorWord { v } => Regs { rax: (self.eax() ^ v) as u64, ..self },
            _ => self,
        }
    }
}

impl Core {
    pub open spec fn to(self, reg: HostReg, v: u64) -> Core {
        Core { r: self.r.set(reg, v), ..self }
    }

    pub open spec fn with(self, c: CpuModel) -> Core {
        Core { c, ..self }
    }

    /// One operation that does not need the bus.
    #[verifier::opaque]
    pub open spec fn ran(self, op: HostOp) -> Core {
        if on_registers(op) {
            Core { r: self.r.computed(op), ..self }
        } else {
            self.moved(op)
        }
    }

    /// Operations on the emulated registers.
    #[verifier::opaque]
    pub open spec fn moved(self, op: HostOp) -> Core {
        let (r, c) = (self.r, self.c);
        match op {
            HostOp::Load { reg, gpr } => self.to(reg, c.r64(gpr as int)),
            HostOp::LoadLow { reg, gpr } => self.to(reg, c.r32(gpr as int) as u64),
            HostOp::Store { gpr } => self.with(c.set64(gpr as int, r.rax)),
            HostOp::StoreIf { gpr, zero } => if (r.rcx == 0) == zero {
                self.with(c.set64(gpr as int, r.rax))
            } else {
                self
            },
            HostOp::LoadPipe { hi, second } => self.to(
                HostReg::Rax,
                if hi {
                    c.pipe(second).hi
                } else {
                    c.pipe(second).lo
                },
            ),
            HostOp::StorePipe { hi, second, from } => self.with(
                c.with_pipe(
                    second,
                    if hi {
                        Reg { hi: r.get(from), ..c.pipe(second) }
                    } else {
                        Reg { lo: r.get(from), ..c.pipe(second) }
                    },
                ),
            ),
            HostOp::LoadSa => self.to(HostReg::Rax, c.sa as u64),
            HostOp::StoreSa => self.with(CpuModel { sa: r.eax(), ..c }),
            HostOp::LoadFpr { fpr } => self.to(HostReg::Rax, c.fpr[fpr as int] as u64),
            HostOp::LoadFprCx { fpr } => self.to(HostReg::Rcx, c.fpr[fpr as int] as u64),
            HostOp::StoreFpr { fpr } => self.with(CpuModel { fpr: c.fpr.update(fpr as int, r.eax()), ..c }),
            HostOp::LoadCondition { negated } => self.to(HostReg::R13, flag(c.condition != negated)),
            HostOp::ClearCondition => self.with(CpuModel { condition: false, ..c }),
            HostOp::Single { op, fd, fs, ft } => {
                let call = FpuCall { op, fd, a: c.fpr[fs as int], b: c.fpr[ft as int], acc: c.acc };
                self.with(c.fpu_finished(call, (self.single)(call)))
            },
            HostOp::Cop0Write { reg } => self.with(CpuModel { cop0: cop0_written(c.cop0, reg as int, r.eax()), ..c }),
            HostOp::SetEie { on } => {
                let status = c.cop0[STATUS as int];
                self.with(
                    CpuModel {
                        cop0: c.cop0.update(
                            STATUS as int,
                            if on {
                                status | STATUS_EIE
                            } else {
                                status & !STATUS_EIE
                            },
                        ),
                        ..c
                    },
                )
            },
            HostOp::Mmi { instr } => self.with(c.mmi(instr).0),
            HostOp::Cop2 { instr } => self.with(c.cop2(instr).0),
            _ => self,
        }
    }
}

/// Operations from the `i`-th on, none of which needs the bus.
pub open spec fn effect(ops: Seq<HostOp>, i: int, k: Core) -> Core
    decreases ops.len() - i,
{
    if i < 0 || i >= ops.len() {
        k
    } else {
        effect(ops, i + 1, k.ran(ops[i]))
    }
}

pub proof fn lemma_run1(a: HostOp, k: Core)
    ensures
        effect(seq![a], 0, k) == k.ran(a),
{
    reveal_with_fuel(effect, 2);
}

pub proof fn lemma_run2(a: HostOp, b: HostOp, k: Core)
    ensures
        effect(seq![a, b], 0, k) == k.ran(a).ran(b),
{
    reveal_with_fuel(effect, 3);
}

pub proof fn lemma_run3(a: HostOp, b: HostOp, c: HostOp, k: Core)
    ensures
        effect(seq![a, b, c], 0, k) == k.ran(a).ran(b).ran(c),
{
    reveal_with_fuel(effect, 4);
}

pub proof fn lemma_run4(a: HostOp, b: HostOp, c: HostOp, d: HostOp, k: Core)
    ensures
        effect(seq![a, b, c, d], 0, k) == k.ran(a).ran(b).ran(c).ran(d),
{
    reveal_with_fuel(effect, 5);
}

pub proof fn lemma_run5(a: HostOp, b: HostOp, c: HostOp, d: HostOp, e: HostOp, k: Core)
    ensures
        effect(seq![a, b, c, d, e], 0, k) == k.ran(a).ran(b).ran(c).ran(d).ran(e),
{
    reveal_with_fuel(effect, 6);
}

/// One operation more.
pub proof fn lemma_run_more(ops: Seq<HostOp>, last: HostOp, i: int, k: Core)
    requires
        0 <= i <= ops.len(),
    ensures
        effect(ops.push(last), i, k) == effect(ops, i, k).ran(last),
    decreases ops.len() - i,
{
    reveal_with_fuel(effect, 2);
    if i < ops.len() {
        assert(ops.push(last)[i] == ops[i]);
        lemma_run_more(ops, last, i + 1, k.ran(ops[i]));
    }
}

pub proof fn lemma_load(k: Core, reg: HostReg, gpr: u32)
    ensures
        k.ran(HostOp::Load { reg, gpr }) == k.to(reg, k.c.r64(gpr as int)),
        k.ran(HostOp::LoadLow { reg, gpr }) == k.to(reg, k.c.r32(gpr as int) as u64),
{
    reveal(Core::ran);
    reveal(Core::moved);
}

pub proof fn lemma_store(k: Core, gpr: u32)
    ensures
        k.ran(HostOp::Store { gpr }) == k.with(k.c.set64(gpr as int, k.r.rax)),
{
    reveal(Core::ran);
    reveal(Core::moved);
}

/// An operation on host registers alone.
pub proof fn lemma_compute(k: Core, op: HostOp)
    requires
        on_registers(op),
    ensures
        k.ran(op) == (Core { r: k.r.computed(op), ..k }),
{
    reveal(Core::ran);
}

pub proof fn lemma_extend(k: Core, reg: HostReg)
    ensures
        k.ran(HostOp::Extend { reg }) == k.to(reg, sext32(low32(k.r.get(reg)))),
{
    lemma_compute(k, HostOp::Extend { reg });
    reveal(Regs::computed);
}

/// The end of a word operation: its result sign-extended into a register.
pub proof fn lemma_extend_store(k: Core, d: u32)
    ensures
        k.ran(HostOp::Extend { reg: HostReg::Rax }).ran(HostOp::Store { gpr: d }).c == k.c.set64(
            d as int,
            sext32(low32(k.r.rax)),
        ),
{
    lemma_extend(k, HostReg::Rax);
    lemma_store(k.ran(HostOp::Extend { reg: HostReg::Rax }), d);
}

/// An operation on the emulated registers.
pub proof fn lemma_move(k: Core, op: HostOp)
    requires
        !on_registers(op),
    ensures
        k.ran(op) == k.moved(op),
{
    reveal(Core::ran);
}

} // verus!
