//! Translated ALU instructions leave in the registers what the interpreter
//! puts there.

use vstd::prelude::*;
use crate::ee::alu::{low32, sext32};
use crate::ee::cpu::special_value;
use super::emit::{into, shift_kind, special_ops, Alu, Emitted, HostOp, HostReg, Test};
use super::model::{
    effect, lemma_compute, lemma_extend_store, lemma_load, lemma_run3, lemma_run4, lemma_run5, lemma_store, Core,
    Regs,
};

verus! {

/// A word result of one loaded register.
proof fn lemma_word1(t: u32, d: u32, op: HostOp, k: Core, v: u64)
    requires
        k.to(HostReg::Rax, k.c.r32(t as int) as u64).ran(op).c == k.c,
        k.to(HostReg::Rax, k.c.r32(t as int) as u64).ran(op).r.rax == v,
    ensures
        effect(
            seq![
                HostOp::LoadLow { reg: HostReg::Rax, gpr: t },
                op,
                HostOp::Extend { reg: HostReg::Rax },
                HostOp::Store { gpr: d },
            ],
            0,
            k,
        ).c == k.c.set64(d as int, sext32(low32(v))),
{
    let load = HostOp::LoadLow { reg: HostReg::Rax, gpr: t };
    lemma_run4(load, op, HostOp::Extend { reg: HostReg::Rax }, HostOp::Store { gpr: d }, k);
    lemma_load(k, HostReg::Rax, t);
    lemma_extend_store(k.ran(load).ran(op), d);
}

/// A word result of two loaded registers.
proof fn lemma_word2(first: HostReg, second: HostReg, s: u32, t: u32, d: u32, op: HostOp, k: Core, v: u64)
    requires
        first != second,
        ({
            let g = k.to(first, k.c.r32(s as int) as u64).to(second, k.c.r32(t as int) as u64).ran(op);
            g.c == k.c && g.r.rax == v
        }),
    ensures
        effect(
            seq![
                HostOp::LoadLow { reg: first, gpr: s },
                HostOp::LoadLow { reg: second, gpr: t },
                op,
                HostOp::Extend { reg: HostReg::Rax },
                HostOp::Store { gpr: d },
            ],
            0,
            k,
        ).c == k.c.set64(d as int, sext32(low32(v))),
{
    let op1 = HostOp::LoadLow { reg: first, gpr: s };
    let op2 = HostOp::LoadLow { reg: second, gpr: t };
    lemma_run5(op1, op2, op, HostOp::Extend { reg: HostReg::Rax }, HostOp::Store { gpr: d }, k);
    lemma_load(k, first, s);
    lemma_load(k.ran(op1), second, t);
    lemma_extend_store(k.ran(op1).ran(op2).ran(op), d);
}

/// A doubleword result of two registers; `low` loads only the first one's
/// word.
proof fn lemma_double2(low: bool, first: HostReg, second: HostReg, s: u32, t: u32, d: u32, op: HostOp, k: Core, v: u64)
    requires
        first != second,
        ({
            let a = if low {
                k.c.r32(s as int) as u64
            } else {
                k.c.r64(s as int)
            };
            let g = k.to(first, a).to(second, k.c.r64(t as int)).ran(op);
            g.c == k.c && g.r.rax == v
        }),
    ensures
        ({
            let head = if low {
                HostOp::LoadLow { reg: first, gpr: s }
            } else {
                HostOp::Load { reg: first, gpr: s }
            };
            effect(seq![head, HostOp::Load { reg: second, gpr: t }, op, HostOp::Store { gpr: d }], 0, k).c == k.c.set64(
                d as int,
                v,
            )
        }),
{
    let op1 = if low {
        HostOp::LoadLow { reg: first, gpr: s }
    } else {
        HostOp::Load { reg: first, gpr: s }
    };
    let op2 = HostOp::Load { reg: second, gpr: t };
    lemma_run4(op1, op2, op, HostOp::Store { gpr: d }, k);
    lemma_load(k, first, s);
    lemma_load(k.ran(op1), second, t);
    lemma_store(k.ran(op1).ran(op2).ran(op), d);
}

/// A doubleword result of one register.
pub proof fn lemma_double1(reg: HostReg, s: u32, d: u32, op: HostOp, k: Core, v: u64)
    requires
        ({
            let g = k.to(reg, k.c.r64(s as int)).ran(op);
            g.c == k.c && g.r.rax == v
        }),
    ensures
        effect(seq![HostOp::Load { reg, gpr: s }, op, HostOp::Store { gpr: d }], 0, k).c == k.c.set64(d as int, v),
{
    let op1 = HostOp::Load { reg, gpr: s };
    lemma_run3(op1, op, HostOp::Store { gpr: d }, k);
    lemma_load(k, reg, s);
    lemma_store(k.ran(op1).ran(op), d);
}

/// A SPECIAL instruction leaves in rd what the interpreter computes.
pub open spec fn computes(addr: u32, f: u32, s: u32, t: u32, d: u32, n: u32, k: Core) -> bool {
    let v = special_value(f, k.c.r64(s as int), k.c.r64(t as int), n);
    &&& special_ops(addr, f, s, t, d, n).to == Emitted::Plain
    &&& effect(special_ops(addr, f, s, t, d, n).ops, 0, k).c == k.c.set64(d as int, v->Some_0)
}

proof fn lemma_shift_word(addr: u32, f: u32, s: u32, t: u32, d: u32, n: u32, k: Core)
    requires
        f == 0x00 || f == 0x02 || f == 0x03,
        n < 32,
    ensures
        computes(addr, f, s, t, d, n, k),
{
    let c = k.c;
    let op = HostOp::ShiftWord { kind: shift_kind(f), n };
    let g = k.to(HostReg::Rax, c.r32(t as int) as u64);
    lemma_compute(g, op);
    reveal(Regs::computed);
    lemma_word1(t, d, op, k, g.ran(op).r.rax);
    assert(special_ops(addr, f, s, t, d, n) == into(d, seq![HostOp::LoadLow { reg: HostReg::Rax, gpr: t }, op, HostOp::Extend { reg: HostReg::Rax }, HostOp::Store { gpr: d }])) by {
        reveal(special_ops);
    }
}

proof fn lemma_shift_word_by(addr: u32, f: u32, s: u32, t: u32, d: u32, n: u32, k: Core)
    requires
        f == 0x04 || f == 0x06 || f == 0x07,
        n < 32,
    ensures
        computes(addr, f, s, t, d, n, k),
{
    let c = k.c;
    let op = HostOp::ShiftWordCl { kind: shift_kind(f) };
    let g = k.to(HostReg::Rcx, c.r32(s as int) as u64).to(HostReg::Rax, c.r32(t as int) as u64);
    lemma_compute(g, op);
    reveal(Regs::computed);
    lemma_word2(HostReg::Rcx, HostReg::Rax, s, t, d, op, k, g.ran(op).r.rax);
    assert(special_ops(addr, f, s, t, d, n) == into(d, seq![HostOp::LoadLow { reg: HostReg::Rcx, gpr: s }, HostOp::LoadLow { reg: HostReg::Rax, gpr: t }, op, HostOp::Extend { reg: HostReg::Rax }, HostOp::Store { gpr: d }])) by {
        reveal(special_ops);
    }
}

proof fn lemma_shift_double_by(addr: u32, f: u32, s: u32, t: u32, d: u32, n: u32, k: Core)
    requires
        f == 0x14 || f == 0x16 || f == 0x17,
        n < 32,
    ensures
        computes(addr, f, s, t, d, n, k),
{
    let c = k.c;
    let op = HostOp::ShiftDoubleCl { kind: shift_kind(f) };
    let g = k.to(HostReg::Rcx, c.r32(s as int) as u64).to(HostReg::Rax, c.r64(t as int));
    lemma_compute(g, op);
    reveal(Regs::computed);
    lemma_double2(true, HostReg::Rcx, HostReg::Rax, s, t, d, op, k, g.ran(op).r.rax);
    assert(special_ops(addr, f, s, t, d, n) == into(d, seq![HostOp::LoadLow { reg: HostReg::Rcx, gpr: s }, HostOp::Load { reg: HostReg::Rax, gpr: t }, op, HostOp::Store { gpr: d }])) by {
        reveal(special_ops);
    }
}

proof fn lemma_add_word(addr: u32, f: u32, s: u32, t: u32, d: u32, n: u32, k: Core)
    requires
        0x20 <= f <= 0x23,
        n < 32,
    ensures
        computes(addr, f, s, t, d, n, k),
{
    let c = k.c;
    let op = HostOp::Word { op: if f < 0x22 { Alu::Plus } else { Alu::Minus } };
    let g = k.to(HostReg::Rax, c.r32(s as int) as u64).to(HostReg::Rcx, c.r32(t as int) as u64);
    lemma_compute(g, op);
    reveal(Regs::computed);
    lemma_word2(HostReg::Rax, HostReg::Rcx, s, t, d, op, k, g.ran(op).r.rax);
    assert(special_ops(addr, f, s, t, d, n) == into(d, seq![HostOp::LoadLow { reg: HostReg::Rax, gpr: s }, HostOp::LoadLow { reg: HostReg::Rcx, gpr: t }, op, HostOp::Extend { reg: HostReg::Rax }, HostOp::Store { gpr: d }])) by {
        reveal(special_ops);
    }
}

proof fn lemma_set_less(addr: u32, f: u32, s: u32, t: u32, d: u32, n: u32, k: Core)
    requires
        f == 0x2A || f == 0x2B,
        n < 32,
    ensures
        computes(addr, f, s, t, d, n, k),
{
    let c = k.c;
    let op = HostOp::Compare { to: HostReg::Rax, how: if f == 0x2A { Test::Less } else { Test::Below }, left: HostReg::Rcx, right: HostReg::Rax };
    let g = k.to(HostReg::Rcx, c.r64(s as int)).to(HostReg::Rax, c.r64(t as int));
    lemma_compute(g, op);
    reveal(Regs::computed);
    lemma_double2(false, HostReg::Rcx, HostReg::Rax, s, t, d, op, k, g.ran(op).r.rax);
    assert(special_ops(addr, f, s, t, d, n) == into(d, seq![HostOp::Load { reg: HostReg::Rcx, gpr: s }, HostOp::Load { reg: HostReg::Rax, gpr: t }, op, HostOp::Store { gpr: d }])) by {
        reveal(special_ops);
    }
}

proof fn lemma_logic(addr: u32, f: u32, s: u32, t: u32, d: u32, n: u32, k: Core)
    requires
        0x24 <= f <= 0x27 || 0x2C <= f <= 0x2F,
        n < 32,
    ensures
        computes(addr, f, s, t, d, n, k),
{
    let c = k.c;
    let op = HostOp::Double { op: if f == 0x24 { Alu::And } else if f == 0x25 { Alu::Or } else if f == 0x26 { Alu::Xor } else if f == 0x27 { Alu::Nor } else if f < 0x2E { Alu::Plus } else { Alu::Minus } };
    let g = k.to(HostReg::Rax, c.r64(s as int)).to(HostReg::Rcx, c.r64(t as int));
    lemma_compute(g, op);
    reveal(Regs::computed);
    lemma_double2(false, HostReg::Rax, HostReg::Rcx, s, t, d, op, k, g.ran(op).r.rax);
    assert(special_ops(addr, f, s, t, d, n) == into(d, seq![HostOp::Load { reg: HostReg::Rax, gpr: s }, HostOp::Load { reg: HostReg::Rcx, gpr: t }, op, HostOp::Store { gpr: d }])) by {
        reveal(special_ops);
    }
}

proof fn lemma_shift_double(addr: u32, f: u32, s: u32, t: u32, d: u32, n: u32, k: Core)
    requires
        f == 0x38 || f == 0x3A || f == 0x3B || f == 0x3C || f == 0x3E || f == 0x3F,
        n < 32,
    ensures
        computes(addr, f, s, t, d, n, k),
{
    let c = k.c;
    let op = HostOp::ShiftDouble { kind: shift_kind(f), n: if f < 0x3C { n } else { (n + 32) as u32 } };
    let g = k.to(HostReg::Rax, c.r64(t as int));
    lemma_compute(g, op);
    reveal(Regs::computed);
    lemma_double1(HostReg::Rax, t, d, op, k, g.ran(op).r.rax);
    assert(special_ops(addr, f, s, t, d, n) == into(d, seq![HostOp::Load { reg: HostReg::Rax, gpr: t }, op, HostOp::Store { gpr: d }])) by {
        reveal(special_ops);
    }
}

/// SPECIAL instructions that only compute.
pub proof fn lemma_special_value(addr: u32, f: u32, s: u32, t: u32, d: u32, n: u32, k: Core)
    requires
        special_value(f, k.c.r64(s as int), k.c.r64(t as int), n) is Some,
        n < 32,
    ensures
        computes(addr, f, s, t, d, n, k),
{
    if f < 0x04 {
        lemma_shift_word(addr, f, s, t, d, n, k);
    } else if f < 0x08 {
        lemma_shift_word_by(addr, f, s, t, d, n, k);
    } else if f < 0x18 {
        lemma_shift_double_by(addr, f, s, t, d, n, k);
    } else if f < 0x24 {
        lemma_add_word(addr, f, s, t, d, n, k);
    } else if f == 0x2A || f == 0x2B {
        lemma_set_less(addr, f, s, t, d, n, k);
    } else if f < 0x30 {
        lemma_logic(addr, f, s, t, d, n, k);
    } else {
        lemma_shift_double(addr, f, s, t, d, n, k);
    }
}

} // verus!
