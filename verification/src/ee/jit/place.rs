//! Instructions that do not branch do the same wherever the processor is.

use vstd::prelude::*;
use crate::ee::cpu::{branch_taken, CpuModel, FpuCall, Outcome};
use crate::ee::exec::{access_size, opcode, stored_value, Machine};
use crate::ee::issue::{rs, rt};
use super::block::control_flow;

verus! {

/// Where the processor is: what an instruction that does not branch neither
/// reads nor changes.
pub struct Place {
    pub pc: u32,
    pub next_pc: u32,
    pub delay: bool,
    pub current: u32,
    pub in_delay: bool,
}

pub open spec fn moved_to(c: CpuModel, p: Place) -> CpuModel {
    CpuModel { pc: p.pc, next_pc: p.next_pc, delay: p.delay, current: p.current, in_delay: p.in_delay, ..c }
}

pub open spec fn machine_at(m: Machine, p: Place) -> Machine {
    Machine { cpu: moved_to(m.cpu, p), ..m }
}

/// At `addr`, outside any delay slot.
pub open spec fn place_at(addr: u32) -> Place {
    Place {
        pc: addr.wrapping_add(4),
        next_pc: addr.wrapping_add(8),
        delay: false,
        current: addr,
        in_delay: false,
    }
}

/// The same machine, except for where it is.
pub open spec fn same_but_place(a: Machine, b: Machine) -> bool {
    a.bus == b.bus && moved_to(a.cpu, place_at(0)) == moved_to(b.cpu, place_at(0))
}

pub proof fn lemma_same_anywhere(a: Machine, b: Machine, p: Place)
    requires
        same_but_place(a, b),
    ensures
        machine_at(a, p) == machine_at(b, p),
{
    assert(moved_to(a.cpu, p) == moved_to(moved_to(a.cpu, place_at(0)), p));
    assert(moved_to(b.cpu, p) == moved_to(moved_to(b.cpu, place_at(0)), p));
}

pub proof fn lemma_moved_is_same(m: Machine, p: Place)
    ensures
        same_but_place(machine_at(m, p), m),
{
    assert(moved_to(moved_to(m.cpu, p), place_at(0)) == moved_to(m.cpu, place_at(0)));
}

pub proof fn lemma_mmi_anywhere(c: CpuModel, p: Place, instr: u32)
    ensures
        moved_to(c, p).mmi(instr) == (moved_to(c.mmi(instr).0, p), c.mmi(instr).1),
        c.gpr.len() == 32 ==> c.mmi(instr).0.gpr.len() == 32,
{
    reveal(CpuModel::mmi);
}

pub proof fn lemma_cop2_anywhere(c: CpuModel, p: Place, instr: u32)
    ensures
        moved_to(c, p).cop2(instr) == (moved_to(c.cop2(instr).0, p), c.cop2(instr).1),
        c.gpr.len() == 32 ==> c.cop2(instr).0.gpr.len() == 32,
{
    reveal(CpuModel::cop2);
}

proof fn lemma_special_anywhere(c: CpuModel, p: Place, instr: u32)
    ensures
        opcode(instr) == 0 && !control_flow(instr) ==> moved_to(c, p).special(instr) == (
            moved_to(c.special(instr).0, p),
            c.special(instr).1,
        ),
        c.gpr.len() == 32 ==> c.special(instr).0.gpr.len() == 32,
{
    reveal(control_flow);
    reveal(CpuModel::special);
    reveal(CpuModel::special_state);
}

proof fn lemma_regimm_anywhere(c: CpuModel, p: Place, instr: u32)
    ensures
        opcode(instr) == 1 && !control_flow(instr) ==> moved_to(c, p).regimm(instr) == (
            moved_to(c.regimm(instr).0, p),
            c.regimm(instr).1,
        ),
        c.gpr.len() == 32 ==> c.regimm(instr).0.gpr.len() == 32,
{
    reveal(control_flow);
    reveal(CpuModel::regimm);
}

proof fn lemma_cop1_anywhere(c: CpuModel, p: Place, instr: u32)
    ensures
        opcode(instr) == 0x11 && !control_flow(instr) ==> moved_to(c, p).cop1(instr) == (
            moved_to(c.cop1(instr).0, p),
            c.cop1(instr).1,
        ),
        c.gpr.len() == 32 ==> c.cop1(instr).0.gpr.len() == 32,
{
    reveal(control_flow);
    reveal(CpuModel::cop1);
}

proof fn lemma_cop0_anywhere(m: Machine, p: Place, instr: u32)
    ensures
        opcode(instr) == 0x10 && !control_flow(instr) ==> machine_at(m, p).cop0(instr) == (
            machine_at(m.cop0(instr).0, p),
            m.cop0(instr).1,
        ),
        m.cpu.gpr.len() == 32 ==> m.cop0(instr).0.cpu.gpr.len() == 32,
{
    reveal(control_flow);
    reveal(Machine::cop0);
}

/// The bus does not see where the processor is.
proof fn lemma_bus_anywhere(m: Machine, p: Place, a: u32, n: usize, v: u64)
    ensures
        machine_at(m, p).fits(a, n) == m.fits(a, n),
        machine_at(m, p).value(a, n) == m.value(a, n),
        machine_at(m, p).after_read(a) == m.after_read(a),
        machine_at(m, p).after_write(a, n, v) == m.after_write(a, n, v),
{
    reveal(Machine::fits);
    reveal(Machine::value);
    reveal(Machine::after_read);
    reveal(Machine::after_write);
}

proof fn lemma_load_anywhere(m: Machine, p: Place, instr: u32)
    ensures
        machine_at(m, p).load(instr) == (machine_at(m.load(instr).0, p), m.load(instr).1),
        m.cpu.gpr.len() == 32 ==> m.load(instr).0.cpu.gpr.len() == 32,
        machine_at(m, p).fpu_load(instr) == (machine_at(m.fpu_load(instr).0, p), m.fpu_load(instr).1),
        m.cpu.gpr.len() == 32 ==> m.fpu_load(instr).0.cpu.gpr.len() == 32,
{
    let a = m.address(instr);
    lemma_bus_anywhere(m, p, a, access_size(opcode(instr)), 0);
    lemma_bus_anywhere(m, p, a, 4, 0);
    reveal(Machine::load);
    reveal(Machine::fpu_load);
}

proof fn lemma_store_anywhere(m: Machine, p: Place, instr: u32)
    ensures
        machine_at(m, p).store(instr) == (machine_at(m.store(instr).0, p), m.store(instr).1),
        m.cpu.gpr.len() == 32 ==> m.store(instr).0.cpu.gpr.len() == 32,
        machine_at(m, p).fpu_store(instr) == (machine_at(m.fpu_store(instr).0, p), m.fpu_store(instr).1),
        m.cpu.gpr.len() == 32 ==> m.fpu_store(instr).0.cpu.gpr.len() == 32,
{
    let a = m.address(instr);
    let n = access_size(opcode(instr));
    lemma_bus_anywhere(m, p, a, n, stored_value(n, m.cpu.r64(rt(instr))));
    lemma_bus_anywhere(m, p, a, 4, m.cpu.fpr[rt(instr)] as u64);
    reveal(Machine::store);
    reveal(Machine::fpu_store);
}

proof fn lemma_part_anywhere(m: Machine, p: Place, instr: u32, left: bool, double: bool)
    ensures
        machine_at(m, p).load_part(instr, left, double) == (
            machine_at(m.load_part(instr, left, double).0, p),
            m.load_part(instr, left, double).1,
        ),
        m.cpu.gpr.len() == 32 ==> m.load_part(instr, left, double).0.cpu.gpr.len() == 32,
        machine_at(m, p).store_part(instr, left, double) == (
            machine_at(m.store_part(instr, left, double).0, p),
            m.store_part(instr, left, double).1,
        ),
        m.cpu.gpr.len() == 32 ==> m.store_part(instr, left, double).0.cpu.gpr.len() == 32,
{
    let a = m.address(instr);
    lemma_bus_anywhere(m, p, (a - a % 8) as u32, 8, 0);
    lemma_bus_anywhere(m, p, (a - a % 4) as u32, 4, 0);
    reveal(Machine::load_part);
    reveal(Machine::store_part);
}

proof fn lemma_quad_anywhere(m: Machine, p: Place, instr: u32, vu: bool)
    ensures
        machine_at(m, p).load_quad(instr, vu) == (machine_at(m.load_quad(instr, vu).0, p), m.load_quad(instr, vu).1),
        m.cpu.gpr.len() == 32 ==> m.load_quad(instr, vu).0.cpu.gpr.len() == 32,
        machine_at(m, p).store_quad(instr, vu) == (machine_at(m.store_quad(instr, vu).0, p), m.store_quad(instr, vu).1),
        m.cpu.gpr.len() == 32 ==> m.store_quad(instr, vu).0.cpu.gpr.len() == 32,
{
    let a = m.address(instr);
    let at = (a - a % 16) as u32;
    lemma_bus_anywhere(m, p, at, 8, m.cpu.vf[rt(instr)].lo);
    lemma_bus_anywhere(m, p, at, 8, m.cpu.gpr[rt(instr)].lo);
    lemma_bus_anywhere(m, p, (at + 8) as u32, 8, 0);
    reveal(Machine::quad_at);
    reveal(Machine::after_quad);
    reveal(Machine::quad_written);
    reveal(Machine::load_quad);
    reveal(Machine::store_quad);
}

proof fn lemma_access_anywhere(m: Machine, p: Place, instr: u32)
    ensures
        machine_at(m, p).accessed(instr) == (machine_at(m.accessed(instr).0, p), m.accessed(instr).1),
        m.cpu.gpr.len() == 32 ==> m.accessed(instr).0.cpu.gpr.len() == 32,
{
    lemma_load_anywhere(m, p, instr);
    lemma_store_anywhere(m, p, instr);
    lemma_part_anywhere(m, p, instr, true, true);
    lemma_part_anywhere(m, p, instr, true, false);
    lemma_part_anywhere(m, p, instr, false, true);
    lemma_part_anywhere(m, p, instr, false, false);
    lemma_quad_anywhere(m, p, instr, true);
    lemma_quad_anywhere(m, p, instr, false);
    reveal(Machine::accessed);
}

/// An instruction that does not branch does the same wherever it stands.
pub proof fn lemma_executed_anywhere(m: Machine, p: Place, instr: u32)
    ensures
        !control_flow(instr) ==> machine_at(m, p).executed(instr) == (machine_at(m.executed(instr).0, p), m.executed(instr).1),
        m.cpu.gpr.len() == 32 ==> m.executed(instr).0.cpu.gpr.len() == 32,
{
    lemma_special_anywhere(m.cpu, p, instr);
    lemma_regimm_anywhere(m.cpu, p, instr);
    lemma_cop1_anywhere(m.cpu, p, instr);
    lemma_cop2_anywhere(m.cpu, p, instr);
    lemma_mmi_anywhere(m.cpu, p, instr);
    lemma_cop0_anywhere(m, p, instr);
    lemma_access_anywhere(m, p, instr);
    if branch_taken(opcode(instr), m.cpu.r64(rs(instr)), m.cpu.r64(rt(instr))) is Some {
        assert(control_flow(instr)) by {
            reveal(control_flow);
        }
    }
    if opcode(instr) == 2 || opcode(instr) == 3 {
        assert(control_flow(instr)) by {
            reveal(control_flow);
        }
    }
}

/// With the host's floating point at hand, too.
pub proof fn lemma_completed_anywhere(m: Machine, p: Place, instr: u32, single: spec_fn(FpuCall) -> u32)
    ensures
        !control_flow(instr) ==> machine_at(m, p).completed(instr, single) == (
            machine_at(m.completed(instr, single).0, p),
            m.completed(instr, single).1,
        ),
        m.cpu.gpr.len() == 32 ==> m.completed(instr, single).0.cpu.gpr.len() == 32,
{
    reveal(Machine::completed);
    lemma_executed_anywhere(m, p, instr);
    let f = m.executed(instr);
    if let Outcome::Fpu(call) = f.1 {
        let v = single(call);
        assert(moved_to(f.0.cpu, p).fpu_finished(call, v) == moved_to(f.0.cpu.fpu_finished(call, v), p));
    }
}

} // verus!
