//! The interpreter stays the reference: a translated instruction leaves the
//! machine as the interpreter does.

use vstd::prelude::*;
use crate::bus::regs::BusModel;
use crate::ee::alu::low32;
use crate::ee::cop0::cop0_value;
use crate::ee::cpu::{function, immediate, relative, CpuModel, FpuCall, Outcome};
use crate::ee::exec::{access_size, loaded_value, opcode, stored_value, Machine};
use crate::ee::issue::{rs, rt};
use super::cpu_laws::{
    lemma_bc1, lemma_branch, lemma_cop1, lemma_cop_off_bus, lemma_immediate, lemma_jal, lemma_jump_reg, lemma_mmi, lemma_regimm,
    lemma_rest_off_bus, lemma_special, lemma_special_off_bus, off_bus,
};
use super::emit::{
    address_ops, field_d, field_s, field_t, lower, special_ops, BranchKind, Emitted, HostOp, HostReg,
};
use super::model::{
    effect, lemma_compute, lemma_extend_store, lemma_load, lemma_move, lemma_run1, lemma_store, on_bus, Core, Regs,
};

verus! {

/// The host, the emulated registers and the bus.
pub struct Host {
    pub k: Core,
    pub bus: BusModel,
}

impl Host {
    pub open spec fn machine(self) -> Machine {
        Machine { cpu: self.k.c, bus: self.bus }
    }

    /// One operation.
    #[verifier::opaque]
    pub open spec fn ran(self, op: HostOp) -> Host {
        if on_bus(op) {
            self.called(op)
        } else {
            Host { k: self.k.ran(op), ..self }
        }
    }

    /// Operations on the bus.
    #[verifier::opaque]
    pub open spec fn called(self, op: HostOp) -> Host {
        let m = self.machine();
        let a = self.k.r.eax();
        match op {
            HostOp::Cop0Read { reg } => Host {
                k: self.k.to(HostReg::Rax, cop0_value(m.cpu.cop0, reg as int, m.bus.ee.now, m.int0(), m.int1()) as u64),
                ..self
            },
            HostOp::Read { op } => Host {
                k: self.k.to(HostReg::Rax, loaded_value(op, m.value(a, access_size(op)))),
                bus: m.after_read(a),
            },
            HostOp::Write { op } => Host {
                bus: m.after_write(a, access_size(op), stored_value(access_size(op), self.k.r.rcx)),
                ..self
            },
            HostOp::ReadQuad { gpr } => Host {
                k: self.k.with(m.cpu.set128(gpr as int, m.quad_at(a))),
                bus: m.after_quad(a),
            },
            HostOp::ReadQuadVu { vf } => Host {
                k: self.k.with(CpuModel { vf: m.cpu.vf.update(vf as int, m.quad_at(a)), ..m.cpu }),
                bus: m.after_quad(a),
            },
            HostOp::WriteQuad { gpr } => Host { bus: m.quad_written(a, m.cpu.gpr[gpr as int]), ..self },
            HostOp::WriteQuadVu { vf } => Host { bus: m.quad_written(a, m.cpu.vf[vf as int]), ..self },
            _ => self,
        }
    }
}

impl Machine {
    /// An instruction with the host's floating point at hand.
    #[verifier::opaque]
    pub open spec fn completed(self, instr: u32, single: spec_fn(FpuCall) -> u32) -> (Machine, Outcome) {
        let (m, r) = self.executed(instr);
        match r {
            Outcome::Fpu(call) => (Machine { cpu: m.cpu.fpu_finished(call, single(call)), ..m }, Outcome::Done),
            _ => (m, r),
        }
    }
}

/// Operations from the `i`-th on.
pub open spec fn all_effect(ops: Seq<HostOp>, i: int, h: Host) -> Host
    decreases ops.len() - i,
{
    if i < 0 || i >= ops.len() {
        h
    } else {
        all_effect(ops, i + 1, h.ran(ops[i]))
    }
}

/// Operations that do not need the bus leave it alone.
proof fn lemma_lift(ops: Seq<HostOp>, i: int, h: Host)
    requires
        off_bus(ops),
        0 <= i <= ops.len(),
    ensures
        all_effect(ops, i, h) == (Host { k: effect(ops, i, h.k), ..h }),
    decreases ops.len() - i,
{
    if i < ops.len() {
        assert(!on_bus(ops[i]));
        assert(h.ran(ops[i]) == (Host { k: h.k.ran(ops[i]), ..h })) by {
            reveal(Host::ran);
        }
        lemma_lift(ops, i + 1, h.ran(ops[i]));
    }
}

/// At the instruction at `addr`, outside any delay slot.
pub open spec fn at(h: Host, addr: u32) -> bool {
    &&& h.k.c.pc == addr.wrapping_add(4)
    &&& h.k.c.next_pc == addr.wrapping_add(8)
    &&& !h.k.c.delay
}

/// What the law of translation says of one instruction.
pub open spec fn agrees(addr: u32, instr: u32, h: Host) -> bool {
    h.machine().completed(instr, h.k.single) == (all_effect(lower(addr, instr).ops, 0, h).machine(), Outcome::Done)
}

proof fn lemma_plain_alu(addr: u32, instr: u32, h: Host)
    requires
        lower(addr, instr).to == Emitted::Plain,
        opcode(instr) == 0x00 || 0x08 <= opcode(instr) <= 0x0F || opcode(instr) == 0x18 || opcode(instr) == 0x19
            || opcode(instr) == 0x2F,
    ensures
        agrees(addr, instr, h),
{
    reveal(Machine::completed);
    reveal(lower);
    let op = opcode(instr);
    let ops = lower(addr, instr).ops;
    if op == 0x00 {
        lemma_special_off_bus(addr, instr);
        lemma_special(addr, instr, h.k);
    } else if op == 0x2F {
    } else {
        lemma_rest_off_bus(addr, instr);
        lemma_immediate(instr, h.k);
    }
    lemma_lift(ops, 0, h);
}

proof fn lemma_plain_cop(addr: u32, instr: u32, h: Host)
    requires
        lower(addr, instr).to == Emitted::Plain,
        opcode(instr) == 0x11 || opcode(instr) == 0x12 || opcode(instr) == 0x1C,
        h.machine().executed(instr).1 is Done || h.machine().executed(instr).1 is Fpu,
    ensures
        agrees(addr, instr, h),
{
    reveal(Machine::completed);
    reveal(lower);
    let op = opcode(instr);
    let ops = lower(addr, instr).ops;
    if op == 0x11 {
        lemma_cop_off_bus(addr, instr);
        lemma_cop1(addr, instr, h.k);
    } else if op == 0x12 {
        let one = HostOp::Cop2 { instr };
        lemma_run1(one, h.k);
        lemma_move(h.k, one);
        reveal(Core::moved);
        reveal(CpuModel::cop2);
    } else {
        lemma_cop_off_bus(addr, instr);
        assert(h.k.c.mmi(instr).1 == Outcome::Done) by {
            reveal(CpuModel::mmi);
        }
        lemma_mmi(instr, h.k);
    }
    lemma_lift(ops, 0, h);
}

proof fn lemma_all2(a: HostOp, b: HostOp, h: Host)
    ensures
        all_effect(seq![a, b], 0, h) == h.ran(a).ran(b),
        all_effect(seq![a], 0, h) == h.ran(a),
{
    reveal_with_fuel(all_effect, 3);
}

proof fn lemma_all3(a: HostOp, b: HostOp, c: HostOp, h: Host)
    ensures
        all_effect(seq![a, b, c], 0, h) == h.ran(a).ran(b).ran(c),
{
    reveal_with_fuel(all_effect, 4);
}

proof fn lemma_all4(a: HostOp, b: HostOp, c: HostOp, d: HostOp, h: Host)
    ensures
        all_effect(seq![a, b, c, d], 0, h) == h.ran(a).ran(b).ran(c).ran(d),
{
    reveal_with_fuel(all_effect, 5);
}

/// One operation off the bus.
proof fn lemma_off(h: Host, op: HostOp)
    requires
        !on_bus(op),
    ensures
        h.ran(op) == (Host { k: h.k.ran(op), ..h }),
{
    reveal(Host::ran);
}

/// One operation on the bus.
proof fn lemma_on(h: Host, op: HostOp)
    requires
        on_bus(op),
    ensures
        h.ran(op) == h.called(op),
{
    reveal(Host::ran);
}

#[verifier::rlimit(40)]
proof fn lemma_plain_cop0(addr: u32, instr: u32, h: Host)
    requires
        lower(addr, instr).to == Emitted::Plain,
        opcode(instr) == 0x10,
    ensures
        agrees(addr, instr, h),
{
    reveal(Machine::completed);
    reveal(lower);
    let (s, t, d) = (field_s(instr), field_t(instr), field_d(instr));
    let ops = lower(addr, instr).ops;
    reveal(Machine::cop0);
    if s == 0 {
        let read = HostOp::Cop0Read { reg: d };
        lemma_all2(read, read, h);
        lemma_on(h, read);
        reveal(Host::called);
        if t != 0 {
            let h1 = h.ran(read);
            let extend = HostOp::Extend { reg: HostReg::Rax };
            let store = HostOp::Store { gpr: t };
            lemma_all3(read, extend, store, h);
            lemma_off(h1, extend);
            lemma_off(h1.ran(extend), store);
            lemma_extend_store(h1.k, t);
        }
    } else if s == 4 {
        lemma_all2(ops[0], ops[1], h);
        lemma_off(h, ops[0]);
        lemma_load(h.k, HostReg::Rax, t);
        lemma_off(h.ran(ops[0]), ops[1]);
        lemma_move(h.ran(ops[0]).k, ops[1]);
        reveal(Core::moved);
    } else {
        lemma_all2(ops[0], ops[0], h);
        lemma_off(h, ops[0]);
        lemma_move(h.k, ops[0]);
        reveal(Core::moved);
    }
}

/// The address of an access in eax.
proof fn lemma_address(instr: u32, h: Host) -> (g: Host)
    ensures
        g == h.ran(address_ops(instr)[0]).ran(address_ops(instr)[1]),
        g.k.c == h.k.c,
        g.bus == h.bus,
        g.k.single == h.k.single,
        g.k.r.rax == h.machine().address(instr) as u64,
{
    let ops = address_ops(instr);
    lemma_off(h, ops[0]);
    lemma_load(h.k, HostReg::Rax, field_s(instr));
    let h1 = h.ran(ops[0]);
    lemma_off(h1, ops[1]);
    lemma_compute(h1.k, ops[1]);
    reveal(Regs::computed);
    h1.ran(ops[1])
}

proof fn lemma_plain_load(addr: u32, instr: u32, h: Host)
    requires
        ({
            let op = opcode(instr);
            op == 0x20 || op == 0x21 || op == 0x23 || op == 0x24 || op == 0x25 || op == 0x27 || op == 0x37 || op == 0x31
        }),
        h.machine().executed(instr).1 is Done,
    ensures
        agrees(addr, instr, h),
{
    reveal(Machine::completed);
    reveal(lower);
    let op = opcode(instr);
    let t = field_t(instr);
    let ops = lower(addr, instr).ops;
    let at = address_ops(instr);
    let g = lemma_address(instr, h);
    let read = HostOp::Read { op };
    lemma_on(g, read);
    let g1 = g.ran(read);
    reveal(Machine::accessed);
    reveal(Machine::load);
    reveal(Machine::fpu_load);
    reveal(Host::called);
    if op == 0x31 {
        let last = HostOp::StoreFpr { fpr: t };
        lemma_all4(at[0], at[1], read, last, h);
        assert(ops =~= seq![at[0], at[1], read, last]);
        lemma_off(g1, last);
        lemma_move(g1.k, last);
        reveal(Core::moved);
    } else if t == 0 {
        lemma_all3(at[0], at[1], read, h);
        assert(ops =~= seq![at[0], at[1], read]);
    } else {
        let last = HostOp::Store { gpr: t };
        lemma_all4(at[0], at[1], read, last, h);
        assert(ops =~= seq![at[0], at[1], read, last]);
        lemma_off(g1, last);
        lemma_store(g1.k, t);
    }
}

proof fn lemma_plain_store(addr: u32, instr: u32, h: Host)
    requires
        ({
            let op = opcode(instr);
            op == 0x28 || op == 0x29 || op == 0x2B || op == 0x3F || op == 0x39
        }),
        h.machine().executed(instr).1 is Done,
    ensures
        agrees(addr, instr, h),
{
    reveal(Machine::completed);
    reveal(lower);
    let op = opcode(instr);
    let t = field_t(instr);
    let ops = lower(addr, instr).ops;
    let at = address_ops(instr);
    let g = lemma_address(instr, h);
    let value = if op == 0x39 {
        HostOp::LoadFprCx { fpr: t }
    } else {
        HostOp::Load { reg: HostReg::Rcx, gpr: t }
    };
    let write = HostOp::Write { op };
    lemma_all4(at[0], at[1], value, write, h);
    assert(ops =~= seq![at[0], at[1], value, write]);
    lemma_off(g, value);
    lemma_load(g.k, HostReg::Rcx, t);
    lemma_move(g.k, value);
    reveal(Core::moved);
    lemma_on(g.ran(value), write);
    reveal(Host::called);
    reveal(Machine::accessed);
    reveal(Machine::store);
    reveal(Machine::fpu_store);
}

proof fn lemma_plain_quad(addr: u32, instr: u32, h: Host)
    requires
        ({
            let op = opcode(instr);
            op == 0x1E || op == 0x1F || op == 0x36 || op == 0x3E
        }),
        (opcode(instr) == 0x1E || opcode(instr) == 0x36) ==> rt(instr) != 0,
        h.machine().executed(instr).1 is Done,
    ensures
        agrees(addr, instr, h),
{
    reveal(Machine::completed);
    reveal(lower);
    let op = opcode(instr);
    let t = field_t(instr);
    let ops = lower(addr, instr).ops;
    let at = address_ops(instr);
    let g = lemma_address(instr, h);
    let last = if op == 0x1E {
        HostOp::ReadQuad { gpr: t }
    } else if op == 0x1F {
        HostOp::WriteQuad { gpr: t }
    } else if op == 0x36 {
        HostOp::ReadQuadVu { vf: t }
    } else {
        HostOp::WriteQuadVu { vf: t }
    };
    lemma_all4(at[0], at[1], HostOp::AlignQuad, last, h);
    assert(ops =~= seq![at[0], at[1], HostOp::AlignQuad, last]);
    lemma_off(g, HostOp::AlignQuad);
    lemma_compute(g.k, HostOp::AlignQuad);
    reveal(Regs::computed);
    lemma_on(g.ran(HostOp::AlignQuad), last);
    reveal(Host::called);
    reveal(Machine::accessed);
    reveal(Machine::load_quad);
    reveal(Machine::store_quad);
}

/// Translation is faithful: wherever the interpreter completes an
/// instruction that was translated to fall through, the host operations
/// leave the registers, the memories and the devices as the interpreter
/// does, whatever the host's floating point computes. The 128-bit loads
/// into register zero are set apart: the translator skips their read.
pub proof fn law_translation_agrees(addr: u32, instr: u32, h: Host)
    requires
        lower(addr, instr).to == Emitted::Plain,
        h.machine().completed(instr, h.k.single).1 is Done,
        (opcode(instr) == 0x1E || opcode(instr) == 0x36) ==> rt(instr) != 0,
    ensures
        h.machine().completed(instr, h.k.single) == (
            all_effect(lower(addr, instr).ops, 0, h).machine(),
            Outcome::Done,
        ),
{
    reveal(Machine::completed);
    reveal(lower);
    let op = opcode(instr);
    if op == 0x00 || 0x08 <= op <= 0x0F || op == 0x18 || op == 0x19 || op == 0x2F {
        lemma_plain_alu(addr, instr, h);
    } else if op == 0x11 || op == 0x12 || op == 0x1C {
        lemma_plain_cop(addr, instr, h);
    } else if op == 0x10 {
        lemma_plain_cop0(addr, instr, h);
    } else {
        lemma_access_done(instr, h.machine());
        if op == 0x1E || op == 0x1F || op == 0x36 || op == 0x3E {
            lemma_plain_quad(addr, instr, h);
        } else if op == 0x28 || op == 0x29 || op == 0x2B || op == 0x3F || op == 0x39 {
            lemma_plain_store(addr, instr, h);
        } else {
            lemma_plain_load(addr, instr, h);
        }
    }
}

/// Accesses never wait for the host's floating point.
proof fn lemma_access_done(instr: u32, m: Machine)
    ensures
        !(m.accessed(instr).1 is Fpu),
{
    reveal(Machine::accessed);
    reveal(Machine::load);
    reveal(Machine::store);
    reveal(Machine::fpu_load);
    reveal(Machine::fpu_store);
    reveal(Machine::load_part);
    reveal(Machine::store_part);
    reveal(Machine::load_quad);
    reveal(Machine::store_quad);
}

/// Where a translated branch goes, by its kind and the host's registers.
pub open spec fn resolved(k: Core, kind: BranchKind, imm: u32) -> CpuModel {
    match kind {
        BranchKind::Jump(target) => k.c.branched(target),
        BranchKind::JumpReg => k.c.branched(low32(k.r.r14)),
        BranchKind::Cond { target, likely } => k.c.branched_if(k.r.r13 != 0, imm, likely),
    }
}

/// Branches agree too: the condition, the target, the link register and
/// whether the delay slot runs are the interpreter's. A linking branch on
/// its own link register is set apart: the translator tests the register
/// before the link, the interpreter after it.
#[verifier::rlimit(30)]
pub proof fn law_branch_translation_agrees(addr: u32, instr: u32, h: Host, kind: BranchKind)
    requires
        lower(addr, instr).to == Emitted::Branch(kind),
        at(h, addr),
        h.k.c.gpr.len() == 32,
        opcode(instr) == 0x01 && rt(instr) >= 0x10 ==> rs(instr) != 31,
    ensures
        ({
            let e = all_effect(lower(addr, instr).ops, 0, h);
            &&& h.machine().executed(instr) == (
                Machine { cpu: resolved(e.k, kind, immediate(instr)), ..h.machine() },
                Outcome::Done,
            )
            &&& kind matches BranchKind::Cond { target, .. } ==> target == relative(addr.wrapping_add(4), immediate(instr))
            &&& e.bus == h.bus
        }),
{
    reveal(lower);
    let op = opcode(instr);
    let ops = lower(addr, instr).ops;
    if op == 0x00 {
        lemma_special_off_bus(addr, instr);
        assert(function(instr) == 0x08 || function(instr) == 0x09) by {
            reveal(special_ops);
        }
        lemma_jump_reg(addr, instr, h.k);
    } else if op == 0x01 {
        lemma_rest_off_bus(addr, instr);
        lemma_regimm(addr, instr, h.k);
        reveal(CpuModel::regimm);
        assert(h.k.c.set32(31, h.k.c.next_pc).r64(rs(instr)) == h.k.c.r64(rs(instr)) || rs(instr) == 31);
    } else if op == 0x03 {
        lemma_jal(addr, h.k);
    } else if op == 0x11 {
        lemma_cop_off_bus(addr, instr);
        lemma_bc1(addr, instr, h.k);
        reveal(CpuModel::cop1);
    } else if op != 0x02 {
        lemma_rest_off_bus(addr, instr);
        lemma_branch(addr, instr, h.k);
    }
    lemma_lift(ops, 0, h);
}

} // verus!
