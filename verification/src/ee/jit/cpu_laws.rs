//! Translated instructions do to the registers what the interpreter does.

use vstd::prelude::*;
use crate::ee::alu::{as_word, divided, halves, low32, negative, product, sext32, Reg};
use crate::ee::cpu::{
    amount, branch_taken, function, immediate, immediate_value, special_value, CpuModel, Outcome,
};
use crate::ee::exec::opcode;
use crate::ee::issue::{rs, rt};
use super::alu_laws::{lemma_double1, lemma_special_value};
use super::emit::{
    field_d, field_s, field_t, into, lower_branch, lower_cop1, lower_div, lower_immediate, lower_mmi, lower_mult,
    lower_regimm, lower_special, special_ops, BranchKind, Emitted, HostOp, HostReg,
};
use super::model::{
    effect, lemma_compute, lemma_extend, lemma_extend_store, lemma_load, lemma_move, lemma_run1, lemma_run2, lemma_run3,
    lemma_run4, lemma_run5, lemma_run_more, lemma_store, on_bus, Core, Regs,
};

verus! {

proof fn lemma_store_pipe(k: Core, second: bool)
    ensures
        ({
            let low = HostOp::StorePipe { hi: false, second, from: HostReg::Rax };
            let high = HostOp::StorePipe { hi: true, second, from: HostReg::Rdx };
            k.ran(low).ran(high) == k.with(k.c.with_pipe(second, Reg { lo: k.r.rax, hi: k.r.rdx }))
        }),
{
    let low = HostOp::StorePipe { hi: false, second, from: HostReg::Rax };
    let high = HostOp::StorePipe { hi: true, second, from: HostReg::Rdx };
    lemma_move(k, low);
    lemma_move(k.ran(low), high);
    reveal(Core::moved);
}

/// The registers a multiplication or division goes through.
proof fn lemma_pipes(s: u32, t: u32, second: bool, op: HostOp, v: Reg, k: Core)
    requires
        ({
            let g = k.to(HostReg::Rax, k.c.r32(s as int) as u64).to(HostReg::Rcx, k.c.r32(t as int) as u64);
            g.ran(op) == (Core { r: Regs { rax: low32(v.lo) as u64, rdx: low32(v.hi) as u64, ..g.r }, ..g })
        }),
        v.lo == sext32(low32(v.lo)),
        v.hi == sext32(low32(v.hi)),
    ensures
        ({
            let ops = seq![
                HostOp::LoadLow { reg: HostReg::Rax, gpr: s },
                HostOp::LoadLow { reg: HostReg::Rcx, gpr: t },
                op,
                HostOp::Extend { reg: HostReg::Rax },
                HostOp::Extend { reg: HostReg::Rdx },
                HostOp::StorePipe { hi: false, second, from: HostReg::Rax },
                HostOp::StorePipe { hi: true, second, from: HostReg::Rdx },
            ];
            &&& effect(ops, 0, k).c == k.c.with_pipe(second, v)
            &&& effect(ops, 0, k).r.rax == v.lo
        }),
{
    let op1 = HostOp::LoadLow { reg: HostReg::Rax, gpr: s };
    let op2 = HostOp::LoadLow { reg: HostReg::Rcx, gpr: t };
    let op4 = HostOp::Extend { reg: HostReg::Rax };
    let op5 = HostOp::Extend { reg: HostReg::Rdx };
    let head = seq![op1, op2, op, op4, op5];
    let low = HostOp::StorePipe { hi: false, second, from: HostReg::Rax };
    let high = HostOp::StorePipe { hi: true, second, from: HostReg::Rdx };
    lemma_run5(op1, op2, op, op4, op5, k);
    lemma_run_more(head, low, 0, k);
    lemma_run_more(head.push(low), high, 0, k);
    lemma_load(k, HostReg::Rax, s);
    let k1 = k.ran(op1);
    lemma_load(k1, HostReg::Rcx, t);
    let k3 = k1.ran(op2).ran(op);
    lemma_extend(k3, HostReg::Rax);
    lemma_extend(k3.ran(op4), HostReg::Rdx);
    let k5 = k3.ran(op4).ran(op5);
    assert(k5.r.rax == v.lo && k5.r.rdx == v.hi);
    lemma_store_pipe(k5, second);
    assert(seq![op1, op2, op, op4, op5, low, high] =~= head.push(low).push(high));
}

proof fn lemma_mult(s: u32, t: u32, d: u32, second: bool, signed: bool, k: Core)
    ensures
        effect(lower_mult(s, t, d, second, signed).ops, 0, k).c == k.c.multiplied(
            second,
            d as int,
            halves(product(k.c.r32(s as int), k.c.r32(t as int), signed)),
        ),
{
    let (a, b) = (k.c.r32(s as int), k.c.r32(t as int));
    let g = k.to(HostReg::Rax, a as u64).to(HostReg::Rcx, b as u64);
    let v = halves(product(a, b, signed));
    let op = HostOp::Multiply { signed };
    lemma_compute(g, op);
    reveal(Regs::computed);
    lemma_pipes(s, t, second, op, v, k);
    let ops = lower_mult(s, t, 0, second, signed).ops;
    if d != 0 {
        lemma_run_more(ops, HostOp::Store { gpr: d }, 0, k);
        lemma_store(effect(ops, 0, k), d);
    }
}

/// A word survives its sign extension.
proof fn lemma_word_back(v: u32)
    ensures
        low32(sext32(v)) == v,
{
}

proof fn lemma_divided(a: u32, b: u32, signed: bool)
    ensures
        ({
            let q = divided(a, b, signed);
            q.lo == sext32(low32(q.lo)) && q.hi == sext32(low32(q.hi))
        }),
{
    reveal(divided);
    assert forall|v: int| #[trigger] as_word(v) == sext32(low32(as_word(v))) by {
        lemma_word_back((v % 0x1_0000_0000) as u32);
    }
}

proof fn lemma_div(s: u32, t: u32, second: bool, signed: bool, k: Core)
    ensures
        effect(lower_div(s, t, second, signed).ops, 0, k).c == k.c.with_pipe(
            second,
            divided(k.c.r32(s as int), k.c.r32(t as int), signed),
        ),
{
    let (a, b) = (k.c.r32(s as int), k.c.r32(t as int));
    let g = k.to(HostReg::Rax, a as u64).to(HostReg::Rcx, b as u64);
    let op = HostOp::Divide { signed };
    lemma_compute(g, op);
    reveal(Regs::computed);
    lemma_divided(a, b, signed);
    lemma_pipes(s, t, second, op, divided(a, b, signed), k);
}

/// mfhi, mflo, mthi and mtlo of either pipeline.
proof fn lemma_pipe_moves(hi: bool, second: bool, s: u32, d: u32, k: Core)
    ensures
        ({
            let p = k.c.pipe(second);
            &&& effect(into(d, seq![HostOp::LoadPipe { hi, second }, HostOp::Store { gpr: d }]).ops, 0, k).c == k.c.set64(
                d as int,
                if hi {
                    p.hi
                } else {
                    p.lo
                },
            )
            &&& effect(
                seq![
                    HostOp::Load { reg: HostReg::Rax, gpr: s },
                    HostOp::StorePipe { hi, second, from: HostReg::Rax },
                ],
                0,
                k,
            ).c == k.c.with_pipe(
                second,
                if hi {
                    Reg { hi: k.c.r64(s as int), ..p }
                } else {
                    Reg { lo: k.c.r64(s as int), ..p }
                },
            )
        }),
{
    let load = HostOp::LoadPipe { hi, second };
    lemma_run2(load, HostOp::Store { gpr: d }, k);
    lemma_move(k, load);
    lemma_store(k.ran(load), d);
    let op1 = HostOp::Load { reg: HostReg::Rax, gpr: s };
    let op2 = HostOp::StorePipe { hi, second, from: HostReg::Rax };
    lemma_run2(op1, op2, k);
    lemma_load(k, HostReg::Rax, s);
    lemma_move(k.ran(op1), op2);
    reveal(Core::moved);
}

/// movz and movn.
proof fn lemma_cond_move(s: u32, t: u32, d: u32, zero: bool, k: Core)
    ensures
        effect(
            into(
                d,
                seq![
                    HostOp::Load { reg: HostReg::Rcx, gpr: t },
                    HostOp::Load { reg: HostReg::Rax, gpr: s },
                    HostOp::StoreIf { gpr: d, zero },
                ],
            ).ops,
            0,
            k,
        ).c == (if (k.c.r64(t as int) == 0) == zero {
            k.c.set64(d as int, k.c.r64(s as int))
        } else {
            k.c
        }),
{
    let op1 = HostOp::Load { reg: HostReg::Rcx, gpr: t };
    let op2 = HostOp::Load { reg: HostReg::Rax, gpr: s };
    let op3 = HostOp::StoreIf { gpr: d, zero };
    lemma_run3(op1, op2, op3, k);
    lemma_load(k, HostReg::Rcx, t);
    lemma_load(k.ran(op1), HostReg::Rax, s);
    lemma_move(k.ran(op1).ran(op2), op3);
    reveal(Core::moved);
}

/// mfsa and mtsa.
proof fn lemma_sa(s: u32, d: u32, k: Core)
    ensures
        effect(into(d, seq![HostOp::LoadSa, HostOp::Store { gpr: d }]).ops, 0, k).c == k.c.set64(d as int, k.c.sa as u64),
        effect(seq![HostOp::LoadLow { reg: HostReg::Rax, gpr: s }, HostOp::StoreSa], 0, k).c == (CpuModel {
            sa: k.c.r32(s as int),
            ..k.c
        }),
{
    lemma_run2(HostOp::LoadSa, HostOp::Store { gpr: d }, k);
    lemma_move(k, HostOp::LoadSa);
    lemma_store(k.ran(HostOp::LoadSa), d);
    let op1 = HostOp::LoadLow { reg: HostReg::Rax, gpr: s };
    lemma_run2(op1, HostOp::StoreSa, k);
    lemma_load(k, HostReg::Rax, s);
    lemma_move(k.ran(op1), HostOp::StoreSa);
    reveal(Core::moved);
}

/// SPECIAL instructions on more than the GPRs.
proof fn lemma_special_state(addr: u32, instr: u32, k: Core)
    requires
        ({
            let f = function(instr);
            f == 0x0A || f == 0x0B || f == 0x0F || 0x10 <= f <= 0x13 || 0x18 <= f <= 0x1B || f == 0x28 || f == 0x29
        }),
    ensures
        lower_special(addr, instr).to == Emitted::Plain,
        (effect(lower_special(addr, instr).ops, 0, k).c, Outcome::Done) == k.c.special_state(instr),
{
    let f = function(instr);
    let (s, t, d) = (field_s(instr), field_t(instr), field_d(instr));
    reveal(CpuModel::special_state);
    reveal(special_ops);
    if f == 0x0A || f == 0x0B {
        lemma_cond_move(s, t, d, f == 0x0A, k);
    } else if 0x10 <= f <= 0x13 {
        lemma_pipe_moves(f <= 0x11, false, s, d, k);
    } else if f == 0x18 || f == 0x19 {
        lemma_mult(s, t, d, false, f == 0x18, k);
    } else if f == 0x1A || f == 0x1B {
        lemma_div(s, t, false, f == 0x1A, k);
    } else if f == 0x28 || f == 0x29 {
        lemma_sa(s, d, k);
    }
}

/// SPECIAL instructions that fall through.
pub proof fn lemma_special(addr: u32, instr: u32, k: Core)
    requires
        lower_special(addr, instr).to == Emitted::Plain,
    ensures
        (effect(lower_special(addr, instr).ops, 0, k).c, Outcome::Done) == k.c.special(instr),
{
    let f = function(instr);
    let (s, t, d) = (field_s(instr), field_t(instr), field_d(instr));
    let v = special_value(f, k.c.r64(s as int), k.c.r64(t as int), amount(instr));
    if v is Some {
        lemma_special_value(addr, f, s, t, d, amount(instr), k);
    } else {
        assert(f == 0x0A || f == 0x0B || f == 0x0F || 0x10 <= f <= 0x13 || 0x18 <= f <= 0x1B || f == 0x28 || f == 0x29) by {
            reveal(special_ops);
        }
        lemma_special_state(addr, instr, k);
    }
    reveal(CpuModel::special);
}

/// The link register.
proof fn lemma_link(k: Core, to: u32, d: u32)
    ensures
        k.ran(HostOp::Put { reg: HostReg::Rax, v: to as u64 }).ran(HostOp::Extend { reg: HostReg::Rax }).ran(
            HostOp::Store { gpr: d },
        ).c == k.c.set32(d as int, to),
        k.ran(HostOp::Put { reg: HostReg::Rax, v: to as u64 }).ran(HostOp::Extend { reg: HostReg::Rax }).ran(
            HostOp::Store { gpr: d },
        ).r == (Regs { rax: sext32(to), ..k.r }),
{
    let put = HostOp::Put { reg: HostReg::Rax, v: to as u64 };
    lemma_compute(k, put);
    reveal(Regs::computed);
    lemma_extend(k.ran(put), HostReg::Rax);
    lemma_store(k.ran(put).ran(HostOp::Extend { reg: HostReg::Rax }), d);
}

/// jr and jalr leave the target in r14.
pub proof fn lemma_jump_reg(addr: u32, instr: u32, k: Core)
    requires
        function(instr) == 0x08 || function(instr) == 0x09,
        k.c.next_pc == addr.wrapping_add(8),
    ensures
        lower_special(addr, instr).to == Emitted::Branch(BranchKind::JumpReg),
        ({
            let e = effect(lower_special(addr, instr).ops, 0, k);
            k.c.special(instr) == (e.c.branched(low32(e.r.r14)), Outcome::Done)
        }),
{
    let (s, d) = (field_s(instr), field_d(instr));
    reveal(CpuModel::special);
    reveal(CpuModel::special_state);
    reveal(special_ops);
    let op1 = HostOp::LoadLow { reg: HostReg::R14, gpr: s };
    lemma_run1(op1, k);
    lemma_load(k, HostReg::R14, s);
    if function(instr) == 0x09 && d != 0 {
        let put = HostOp::Put { reg: HostReg::Rax, v: addr.wrapping_add(8) as u64 };
        lemma_run4(op1, put, HostOp::Extend { reg: HostReg::Rax }, HostOp::Store { gpr: d }, k);
        lemma_link(k.ran(op1), addr.wrapping_add(8), d);
    }
}

/// jal.
pub proof fn lemma_jal(addr: u32, k: Core)
    ensures
        effect(
            seq![
                HostOp::Put { reg: HostReg::Rax, v: addr.wrapping_add(8) as u64 },
                HostOp::Extend { reg: HostReg::Rax },
                HostOp::Store { gpr: 31 },
            ],
            0,
            k,
        ).c == k.c.set32(31, addr.wrapping_add(8)),
{
    let put = HostOp::Put { reg: HostReg::Rax, v: addr.wrapping_add(8) as u64 };
    lemma_run3(put, HostOp::Extend { reg: HostReg::Rax }, HostOp::Store { gpr: 31 }, k);
    lemma_link(k, addr.wrapping_add(8), 31);
}

/// beq, bne, blez, bgtz and their likely forms: r13 is the condition.
pub proof fn lemma_branch(addr: u32, instr: u32, k: Core)
    requires
        branch_taken(opcode(instr), k.c.r64(rs(instr)), k.c.r64(rt(instr))) is Some,
    ensures
        ({
            let e = effect(lower_branch(addr, instr).ops, 0, k);
            &&& e.c == k.c
            &&& (e.r.r13 != 0) == branch_taken(opcode(instr), k.c.r64(rs(instr)), k.c.r64(rt(instr)))->Some_0
        }),
{
    let op = opcode(instr);
    let (s, t) = (field_s(instr), field_t(instr));
    let ops = lower_branch(addr, instr).ops;
    let load = HostOp::Load { reg: HostReg::Rax, gpr: s };
    lemma_load(k, HostReg::Rax, s);
    let k1 = k.ran(load);
    reveal(Regs::computed);
    if op == 0x04 || op == 0x05 || op == 0x14 || op == 0x15 {
        lemma_run3(load, ops[1], ops[2], k);
        lemma_load(k1, HostReg::Rcx, t);
        lemma_compute(k1.ran(ops[1]), ops[2]);
    } else {
        lemma_run2(load, ops[1], k);
        lemma_compute(k1, ops[1]);
    }
}

/// REGIMM branches: r13 is the condition on the register as it was, and the
/// linking forms set r31.
pub proof fn lemma_regimm(addr: u32, instr: u32, k: Core)
    requires
        rt(instr) < 4 || 0x10 <= rt(instr) < 0x14,
    ensures
        ({
            let e = effect(lower_regimm(addr, instr).ops, 0, k);
            &&& e.c == (if rt(instr) >= 0x10 {
                k.c.set32(31, addr.wrapping_add(8))
            } else {
                k.c
            })
            &&& (e.r.r13 != 0) == (negative(k.c.r64(rs(instr))) == (rt(instr) % 2 == 0))
        }),
{
    let (s, t) = (field_s(instr), field_t(instr));
    let ops = lower_regimm(addr, instr).ops;
    let load = HostOp::Load { reg: HostReg::Rax, gpr: s };
    lemma_load(k, HostReg::Rax, s);
    let k1 = k.ran(load);
    lemma_compute(k1, ops[1]);
    reveal(Regs::computed);
    if t < 4 {
        lemma_run2(load, ops[1], k);
    } else {
        lemma_run5(load, ops[1], ops[2], ops[3], ops[4], k);
        lemma_link(k1.ran(ops[1]), addr.wrapping_add(8), 31);
    }
}

/// Immediate instructions.
pub proof fn lemma_immediate(instr: u32, k: Core)
    requires
        immediate_value(opcode(instr), k.c.r64(rs(instr)), immediate(instr)) is Some,
    ensures
        lower_immediate(instr).to == Emitted::Plain,
        effect(lower_immediate(instr).ops, 0, k).c == k.c.set64(
            rt(instr),
            immediate_value(opcode(instr), k.c.r64(rs(instr)), immediate(instr))->Some_0,
        ),
{
    let op = opcode(instr);
    let (s, t) = (field_s(instr), field_t(instr));
    let ops = lower_immediate(instr).ops;
    let c = k.c;
    reveal(Regs::computed);
    if t != 0 {
        if op == 0x08 || op == 0x09 {
            lemma_run4(ops[0], ops[1], ops[2], ops[3], k);
            lemma_load(k, HostReg::Rax, s);
            lemma_compute(k.ran(ops[0]), ops[1]);
            lemma_extend_store(k.ran(ops[0]).ran(ops[1]), t);
        } else if op == 0x0A || op == 0x0B {
            let g = k.to(HostReg::Rcx, c.r64(s as int));
            lemma_compute(g, ops[1]);
            lemma_double1(HostReg::Rcx, s, t, ops[1], k, g.ran(ops[1]).r.rax);
        } else if op == 0x0F {
            lemma_run2(ops[0], ops[1], k);
            lemma_compute(k, ops[0]);
            lemma_store(k.ran(ops[0]), t);
        } else {
            let g = k.to(HostReg::Rax, c.r64(s as int));
            lemma_compute(g, ops[1]);
            lemma_double1(HostReg::Rax, s, t, ops[1], k, g.ran(ops[1]).r.rax);
        }
    }
}

/// MMI.
pub proof fn lemma_mmi(instr: u32, k: Core)
    requires
        k.c.mmi(instr).1 == Outcome::Done,
    ensures
        lower_mmi(instr).to == Emitted::Plain,
        (effect(lower_mmi(instr).ops, 0, k).c, Outcome::Done) == k.c.mmi(instr),
{
    let f = function(instr);
    let (s, t, d) = (field_s(instr), field_t(instr), field_d(instr));
    if 0x10 <= f <= 0x13 {
        lemma_pipe_moves(f <= 0x11, true, s, d, k);
        reveal(CpuModel::mmi);
    } else if f == 0x18 || f == 0x19 {
        lemma_mult(s, t, d, true, f == 0x18, k);
        reveal(CpuModel::mmi);
    } else if f == 0x1A || f == 0x1B {
        lemma_div(s, t, true, f == 0x1A, k);
        reveal(CpuModel::mmi);
    } else {
        let op = HostOp::Mmi { instr };
        lemma_run1(op, k);
        lemma_move(k, op);
        reveal(Core::moved);
    }
}

/// COP1 instructions that fall through, the arithmetic being the host's.
pub proof fn lemma_cop1(addr: u32, instr: u32, k: Core)
    requires
        lower_cop1(addr, instr).to == Emitted::Plain,
    ensures
        ({
            let e = effect(lower_cop1(addr, instr).ops, 0, k).c;
            let (c, r) = k.c.cop1(instr);
            match r {
                Outcome::Fpu(call) => e == c.fpu_finished(call, (k.single)(call)),
                _ => r == Outcome::Done && e == c,
            }
        }),
{
    let (s, t, d) = (field_s(instr), field_t(instr), field_d(instr));
    let ops = lower_cop1(addr, instr).ops;
    let f = function(instr);
    reveal(CpuModel::cop1);
    if s == 0x00 {
        if t != 0 {
            lemma_run3(ops[0], ops[1], ops[2], k);
            lemma_move(k, ops[0]);
            lemma_extend_store(k.ran(ops[0]), t);
            reveal(Core::moved);
        }
    } else if s == 0x04 {
        lemma_run2(ops[0], ops[1], k);
        lemma_load(k, HostReg::Rax, t);
        lemma_move(k.ran(ops[0]), ops[1]);
        reveal(Core::moved);
    } else if s == 0x10 && (f == 0x05 || f == 0x07) {
        lemma_run3(ops[0], ops[1], ops[2], k);
        lemma_move(k, ops[0]);
        lemma_compute(k.ran(ops[0]), ops[1]);
        reveal(Regs::computed);
        lemma_move(k.ran(ops[0]).ran(ops[1]), ops[2]);
        reveal(Core::moved);
        let v = k.c.fpr[d as int];
        assert(v & 0x7FFF_FFFF == v % 0x8000_0000) by (bit_vector);
    } else if s == 0x10 && f == 0x06 {
        lemma_run2(ops[0], ops[1], k);
        lemma_move(k, ops[0]);
        lemma_move(k.ran(ops[0]), ops[1]);
        reveal(Core::moved);
    } else {
        lemma_run1(ops[0], k);
        lemma_move(k, ops[0]);
        reveal(Core::moved);
    }
}

/// bc1: r13 is the condition or its negation.
pub proof fn lemma_bc1(addr: u32, instr: u32, k: Core)
    requires
        rs(instr) == 0x08,
        rt(instr) < 4,
    ensures
        ({
            let e = effect(lower_cop1(addr, instr).ops, 0, k);
            &&& e.c == k.c
            &&& (e.r.r13 != 0) == (k.c.condition == (rt(instr) % 2 == 1))
        }),
{
    let ops = lower_cop1(addr, instr).ops;
    lemma_run1(ops[0], k);
    lemma_move(k, ops[0]);
    reveal(Core::moved);
}

/// No operation needs the bus.
pub open spec fn off_bus(ops: Seq<HostOp>) -> bool {
    forall|j: int| 0 <= j < ops.len() ==> !on_bus(#[trigger] ops[j])
}

pub proof fn lemma_special_off_bus(addr: u32, instr: u32)
    ensures
        off_bus(lower_special(addr, instr).ops),
{
    reveal(special_ops);
}

pub proof fn lemma_rest_off_bus(addr: u32, instr: u32)
    ensures
        off_bus(lower_regimm(addr, instr).ops),
        off_bus(lower_branch(addr, instr).ops),
        off_bus(lower_immediate(instr).ops),
{
}

pub proof fn lemma_cop_off_bus(addr: u32, instr: u32)
    ensures
        off_bus(lower_mmi(instr).ops),
        off_bus(lower_cop1(addr, instr).ops),
{
}

} // verus!
