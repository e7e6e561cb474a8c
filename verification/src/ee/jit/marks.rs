//! Instructions leave the recompiler's marks alone.

use vstd::prelude::*;
use crate::bus::marks::law_accesses_keep_code_marks;
use crate::ee::alu::{low32, Reg};
use crate::ee::exec::{access_size, opcode, stored_value, Machine};
use crate::ee::issue::rt;

verus! {

/// One access.
proof fn lemma_one(m: Machine, a: u32, n: usize, v: u64)
    ensures
        m.after_read(a).mem.code_pages == m.bus.mem.code_pages,
        m.after_write(a, n, v).mem.code_pages == m.bus.mem.code_pages,
{
    law_accesses_keep_code_marks(m.bus, m.bus.phys(a), n, v);
    reveal(Machine::after_read);
    reveal(Machine::after_write);
}

/// Two halves of a quadword.
proof fn lemma_quad(m: Machine, a: u32, v: Reg)
    ensures
        m.after_quad(a).mem.code_pages == m.bus.mem.code_pages,
        m.quad_written(a, v).mem.code_pages == m.bus.mem.code_pages,
{
    let hi = m.bus.phys((a + 8) as u32);
    lemma_one(m, a, 8, v.lo);
    law_accesses_keep_code_marks(m.after_read(a), hi, 8, 0);
    law_accesses_keep_code_marks(m.after_write(a, 8, v.lo), hi, 8, v.hi);
    reveal(Machine::after_quad);
    reveal(Machine::quad_written);
}

proof fn lemma_plain(m: Machine, instr: u32)
    ensures
        m.load(instr).0.bus.mem.code_pages == m.bus.mem.code_pages,
        m.store(instr).0.bus.mem.code_pages == m.bus.mem.code_pages,
        m.fpu_load(instr).0.bus.mem.code_pages == m.bus.mem.code_pages,
        m.fpu_store(instr).0.bus.mem.code_pages == m.bus.mem.code_pages,
{
    let a = m.address(instr);
    let n = access_size(opcode(instr));
    lemma_one(m, a, n, stored_value(n, m.cpu.r64(rt(instr))));
    lemma_one(m, a, 4, m.cpu.fpr[rt(instr)] as u64);
    reveal(Machine::load);
    reveal(Machine::store);
    reveal(Machine::fpu_load);
    reveal(Machine::fpu_store);
}

proof fn lemma_part(m: Machine, instr: u32, left: bool, double: bool)
    ensures
        m.load_part(instr, left, double).0.bus.mem.code_pages == m.bus.mem.code_pages,
        m.store_part(instr, left, double).0.bus.mem.code_pages == m.bus.mem.code_pages,
{
    let a = m.address(instr);
    let at = if double {
        (a - a % 8) as u32
    } else {
        (a - a % 4) as u32
    };
    lemma_one(m, at, 8, 0);
    let read = m.after_read(at);
    assert forall|n: usize, v: u64| (#[trigger] read.phys_written(read.phys(at), n, v)).mem.code_pages == read.mem.code_pages by {
        law_accesses_keep_code_marks(read, read.phys(at), n, v);
    }
    reveal(Machine::load_part);
    reveal(Machine::store_part);
}

proof fn lemma_quads(m: Machine, instr: u32, vu: bool)
    ensures
        m.load_quad(instr, vu).0.bus.mem.code_pages == m.bus.mem.code_pages,
        m.store_quad(instr, vu).0.bus.mem.code_pages == m.bus.mem.code_pages,
{
    let a = m.address(instr);
    let at = (a - a % 16) as u32;
    lemma_quad(m, at, m.cpu.vf[rt(instr)]);
    lemma_quad(m, at, m.cpu.gpr[rt(instr)]);
    reveal(Machine::load_quad);
    reveal(Machine::store_quad);
}

proof fn lemma_access_keeps_marks(m: Machine, instr: u32)
    ensures
        m.accessed(instr).0.bus.mem.code_pages == m.bus.mem.code_pages,
{
    lemma_plain(m, instr);
    lemma_part(m, instr, true, true);
    lemma_part(m, instr, true, false);
    lemma_part(m, instr, false, true);
    lemma_part(m, instr, false, false);
    lemma_quads(m, instr, true);
    lemma_quads(m, instr, false);
    reveal(Machine::accessed);
}

/// Neither an instruction nor a step of the interpreter moves a code mark.
pub proof fn law_steps_keep_code_marks(m: Machine, instr: u32)
    ensures
        m.executed(instr).0.bus.mem.code_pages == m.bus.mem.code_pages,
        m.stepped().0.bus.mem.code_pages == m.bus.mem.code_pages,
{
    lemma_executed_keeps_marks(m, instr);
    reveal(Machine::stepped);
    let i = m.interrupted();
    law_accesses_keep_code_marks(i.bus, i.bus.phys(i.cpu.pc), 0, 0);
    reveal(Machine::after_read);
    lemma_executed_keeps_marks(i.begun(), low32(i.value(i.cpu.pc, 4)));
}

proof fn lemma_executed_keeps_marks(m: Machine, instr: u32)
    ensures
        m.executed(instr).0.bus.mem.code_pages == m.bus.mem.code_pages,
{
    lemma_access_keeps_marks(m, instr);
    if opcode(instr) == 0x10 {
        reveal(Machine::cop0);
    }
}

} // verus!
