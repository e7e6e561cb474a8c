//! The interpreter: one instruction at a time, on the registers and the bus.

use vstd::prelude::*;
use crate::bus::regs::BusModel;
use crate::bus::Bus;
use super::alu::{low32, sext16, sext32, sext8, Reg};
use super::cop0::{cop0_value, cop0_written, indexed_entry, interrupted, returned, STATUS, STATUS_EIE};
use super::cpu::{
    branch_of, branch_taken, done, fields, function, immediate, immediate_of, immediate_value, jump_of, jump_target, simm,
    Cpu, CpuModel, FpuCall, FpuOp, Outcome, EXC_INTERRUPT,
};
use super::fpu::{clamped, control_value, Fpu, CONDITION_BIT};
use super::issue::{rd, rs, rt};

verus! {

/// The registers and the bus together.
pub struct Machine {
    pub cpu: CpuModel,
    pub bus: BusModel,
}

/// Primary opcode.
pub open spec fn opcode(instr: u32) -> u32 {
    instr / 0x400_0000
}

/// The single-precision operation of a COP1.S function, if the host has to
/// compute it.
pub open spec fn fpu_function(f: u32) -> Option<FpuOp> {
    match f {
        0x00 => Some(FpuOp::Sum),
        0x01 => Some(FpuOp::Difference),
        0x02 => Some(FpuOp::Product),
        0x03 => Some(FpuOp::Quotient),
        0x04 => Some(FpuOp::Root),
        0x16 => Some(FpuOp::OverRoot),
        0x18 => Some(FpuOp::SumAcc),
        0x19 => Some(FpuOp::DifferenceAcc),
        0x1A => Some(FpuOp::ProductAcc),
        0x1C => Some(FpuOp::PlusProduct),
        0x1D => Some(FpuOp::MinusProduct),
        0x1E => Some(FpuOp::PlusProductAcc),
        0x1F => Some(FpuOp::MinusProductAcc),
        0x24 => Some(FpuOp::ToWord),
        0x28 => Some(FpuOp::Max),
        0x29 => Some(FpuOp::Min),
        0x32 => Some(FpuOp::Equal),
        0x34 => Some(FpuOp::Less),
        0x36 => Some(FpuOp::LessOrEqual),
        _ => None,
    }
}

fn fpu_function_of(f: u32) -> (r: Option<FpuOp>)
    ensures
        r == fpu_function(f),
{
    match f {
        0x00 => Some(FpuOp::Sum),
        0x01 => Some(FpuOp::Difference),
        0x02 => Some(FpuOp::Product),
        0x03 => Some(FpuOp::Quotient),
        0x04 => Some(FpuOp::Root),
        0x16 => Some(FpuOp::OverRoot),
        0x18 => Some(FpuOp::SumAcc),
        0x19 => Some(FpuOp::DifferenceAcc),
        0x1A => Some(FpuOp::ProductAcc),
        0x1C => Some(FpuOp::PlusProduct),
        0x1D => Some(FpuOp::MinusProduct),
        0x1E => Some(FpuOp::PlusProductAcc),
        0x1F => Some(FpuOp::MinusProductAcc),
        0x24 => Some(FpuOp::ToWord),
        0x28 => Some(FpuOp::Max),
        0x29 => Some(FpuOp::Min),
        0x32 => Some(FpuOp::Equal),
        0x34 => Some(FpuOp::Less),
        0x36 => Some(FpuOp::LessOrEqual),
        _ => None,
    }
}

/// Where a result of the host goes.
#[derive(Clone, Copy, PartialEq, Eq, Structural)]
pub enum FpuPlace {
    Register,
    Accumulator,
    Condition,
}

/// Where a result goes, and whether it is clamped first.
pub open spec fn fpu_place(op: FpuOp) -> (FpuPlace, bool) {
    match op {
        FpuOp::Sum | FpuOp::Difference | FpuOp::Product | FpuOp::Quotient | FpuOp::OverRoot | FpuOp::PlusProduct
        | FpuOp::MinusProduct => (FpuPlace::Register, true),
        FpuOp::SumAcc | FpuOp::DifferenceAcc | FpuOp::ProductAcc | FpuOp::PlusProductAcc | FpuOp::MinusProductAcc => (
            FpuPlace::Accumulator,
            true,
        ),
        FpuOp::Equal | FpuOp::Less | FpuOp::LessOrEqual => (FpuPlace::Condition, false),
        FpuOp::Root | FpuOp::ToWord | FpuOp::FromWord | FpuOp::Max | FpuOp::Min => (FpuPlace::Register, false),
    }
}

fn fpu_place_of(op: FpuOp) -> (r: (FpuPlace, bool))
    ensures
        r == fpu_place(op),
{
    match op {
        FpuOp::Sum | FpuOp::Difference | FpuOp::Product | FpuOp::Quotient | FpuOp::OverRoot | FpuOp::PlusProduct
        | FpuOp::MinusProduct => (FpuPlace::Register, true),
        FpuOp::SumAcc | FpuOp::DifferenceAcc | FpuOp::ProductAcc | FpuOp::PlusProductAcc | FpuOp::MinusProductAcc => (
            FpuPlace::Accumulator,
            true,
        ),
        FpuOp::Equal | FpuOp::Less | FpuOp::LessOrEqual => (FpuPlace::Condition, false),
        FpuOp::Root | FpuOp::ToWord | FpuOp::FromWord | FpuOp::Max | FpuOp::Min => (FpuPlace::Register, false),
    }
}

impl CpuModel {
    /// A host-computed result delivered.
    pub open spec fn fpu_finished(self, call: FpuCall, v: u32) -> CpuModel {
        let (place, clamps) = fpu_place(call.op);
        let w = if clamps {
            clamped(v)
        } else {
            v
        };
        match place {
            FpuPlace::Register => CpuModel { fpr: self.fpr.update(call.fd as int, w), ..self },
            FpuPlace::Accumulator => CpuModel { acc: w, ..self },
            FpuPlace::Condition => CpuModel { condition: v != 0, ..self },
        }
    }

    /// The instruction after the one at `addr` is not the next.
    pub open spec fn diverted(self, addr: u32) -> bool {
        self.pc != addr.wrapping_add(4) || self.next_pc != addr.wrapping_add(8) || self.delay
    }

    /// bc1 / bc0: branch on a condition; bit 0 of rt is its sense, bit 1
    /// makes it likely.
    pub open spec fn branched_on(self, cond: bool, instr: u32) -> (CpuModel, Outcome) {
        let t = rt(instr);
        if t < 4 {
            done(self.branched_if(cond == (t % 2 == 1), immediate(instr), t >= 2))
        } else {
            (self, Outcome::Unimplemented)
        }
    }

    /// COP1.
    #[verifier::opaque]
    pub open spec fn cop1(self, instr: u32) -> (CpuModel, Outcome) {
        let (s, t, d) = (rs(instr), rt(instr), rd(instr));
        let fd = (instr / 64) % 32;
        if s == 0x00 {
            done(self.set32(t, self.fpr[d]))
        } else if s == 0x02 {
            done(self.set32(t, control_value(self.fcr31, self.condition, d)))
        } else if s == 0x04 {
            done(CpuModel { fpr: self.fpr.update(d, self.r32(t)), ..self })
        } else if s == 0x06 {
            done(
                if d == 31 {
                    CpuModel { fcr31: self.r32(t), condition: self.r32(t) & CONDITION_BIT != 0, ..self }
                } else {
                    self
                },
            )
        } else if s == 0x08 {
            self.branched_on(self.condition, instr)
        } else if s == 0x10 {
            self.cop1_single(instr)
        } else if s == 0x14 && function(instr) == 0x20 {
            (self, Outcome::Fpu(FpuCall { op: FpuOp::FromWord, fd, a: self.fpr[d], b: self.fpr[t], acc: self.acc }))
        } else {
            (self, Outcome::Unimplemented)
        }
    }

    /// COP1.S: magnitude, move and negation are exact on bit patterns; the
    /// rest is the host's.
    pub open spec fn cop1_single(self, instr: u32) -> (CpuModel, Outcome) {
        let (t, d) = (rt(instr), rd(instr));
        let fd = (instr / 64) % 32;
        let f = function(instr);
        let (a, b) = (self.fpr[d], self.fpr[t]);
        if f == 0x05 {
            done(CpuModel { fpr: self.fpr.update(fd as int, a % 0x8000_0000), ..self })
        } else if f == 0x06 {
            done(CpuModel { fpr: self.fpr.update(fd as int, a), ..self })
        } else if f == 0x07 {
            done(CpuModel { fpr: self.fpr.update(fd as int, a ^ 0x8000_0000), ..self })
        } else if f == 0x30 {
            done(CpuModel { condition: false, ..self })
        } else {
            match fpu_function(f) {
                Some(op) => (self, Outcome::Fpu(FpuCall { op, fd, a, b, acc: self.acc })),
                None => (self, Outcome::Unimplemented),
            }
        }
    }

    /// COP2: VU0 register moves; macro instructions do nothing here.
    #[verifier::opaque]
    pub open spec fn cop2(self, instr: u32) -> (CpuModel, Outcome) {
        let (s, t, d) = (rs(instr), rt(instr), rd(instr));
        if s == 0x01 {
            done(self.set128(t, self.vf[d]))
        } else if s == 0x02 {
            done(self.set32(t, self.vctl[d]))
        } else if s == 0x05 {
            done(CpuModel { vf: self.vf.update(d, self.gpr[t]), ..self })
        } else if s == 0x06 {
            done(CpuModel { vctl: self.vctl.update(d, self.r32(t)), ..self })
        } else if s >= 0x10 {
            done(self)
        } else {
            (self, Outcome::Unimplemented)
        }
    }
}

/// Bytes of a load or store.
pub open spec fn access_size(op: u32) -> usize {
    match op {
        0x20 | 0x24 | 0x28 => 1,
        0x21 | 0x25 | 0x29 => 2,
        0x37 | 0x3F => 8,
        _ => 4,
    }
}

/// Bytes that a load or store moves.
pub fn access_size_of(op: u32) -> (n: usize)
    ensures
        n == access_size(op),
        n == 1 || n == 2 || n == 4 || n == 8,
{
    match op {
        0x20 | 0x24 | 0x28 => 1,
        0x21 | 0x25 | 0x29 => 2,
        0x37 | 0x3F => 8,
        _ => 4,
    }
}

/// What a load puts into a register.
pub open spec fn loaded_value(op: u32, v: u64) -> u64 {
    match op {
        0x20 => sext8((v % 0x100) as u8),
        0x24 => v % 0x100,
        0x21 => sext16((v % 0x1_0000) as u16),
        0x25 => v % 0x1_0000,
        0x23 => sext32(low32(v)),
        0x27 => v % 0x1_0000_0000,
        _ => v,
    }
}

pub fn load_extend(op: u32, v: u64) -> (r: u64)
    ensures
        r == loaded_value(op, v),
{
    match op {
        0x20 => sext8((v % 0x100) as u8),
        0x24 => v % 0x100,
        0x21 => sext16((v % 0x1_0000) as u16),
        0x25 => v % 0x1_0000,
        0x23 => sext32(low32(v)),
        0x27 => v % 0x1_0000_0000,
        _ => v,
    }
}

/// What a store writes of a register.
pub open spec fn stored_value(n: usize, v: u64) -> u64 {
    if n == 1 {
        v % 0x100
    } else if n == 2 {
        v % 0x1_0000
    } else if n == 4 {
        v % 0x1_0000_0000
    } else {
        v
    }
}

pub fn store_cut(n: usize, v: u64) -> (r: u64)
    ensures
        r == stored_value(n, v),
{
    match n {
        1 => v % 0x100,
        2 => v % 0x1_0000,
        4 => v % 0x1_0000_0000,
        _ => v,
    }
}

/// An unaligned word load merged into a register: lwl takes the memory
/// word's low end, lwr its high end.
pub open spec fn word_merged(left: bool, reg: u32, mem: u32, shift: u32) -> u32 {
    if left {
        (reg & (0x00FF_FFFFu32 >> shift)) | (mem << ((24 - shift) as u32))
    } else {
        (reg & (if shift == 0 {
            0u32
        } else {
            !(u32::MAX >> shift)
        })) | (mem >> shift)
    }
}

fn merge_word(left: bool, reg: u32, mem: u32, shift: u32) -> (r: u32)
    requires
        shift <= 24,
    ensures
        r == word_merged(left, reg, mem, shift),
{
    if left {
        (reg & (0x00FF_FFFFu32 >> shift)) | (mem << (24 - shift))
    } else {
        (reg & if shift == 0 {
            0u32
        } else {
            !(u32::MAX >> shift)
        }) | (mem >> shift)
    }
}

/// An unaligned word store merged into memory.
pub open spec fn word_spread(left: bool, reg: u32, mem: u32, shift: u32) -> u32 {
    if left {
        (reg >> ((24 - shift) as u32)) | (mem & (0xFFFF_FF00u32 << shift))
    } else {
        (reg << shift) | (mem & (if shift == 0 {
            0u32
        } else {
            u32::MAX >> ((32 - shift) as u32)
        }))
    }
}

fn spread_word(left: bool, reg: u32, mem: u32, shift: u32) -> (r: u32)
    requires
        shift <= 24,
    ensures
        r == word_spread(left, reg, mem, shift),
{
    if left {
        (reg >> (24 - shift)) | (mem & (0xFFFF_FF00u32 << shift))
    } else {
        (reg << shift) | (mem & if shift == 0 {
            0u32
        } else {
            u32::MAX >> (32 - shift)
        })
    }
}

/// The doubleword forms.
pub open spec fn double_merged(left: bool, reg: u64, mem: u64, shift: u32) -> u64 {
    if left {
        (reg & (0x00FF_FFFF_FFFF_FFFFu64 >> shift)) | (mem << ((56 - shift) as u32))
    } else {
        (reg & (if shift == 0 {
            0u64
        } else {
            !(u64::MAX >> shift)
        })) | (mem >> shift)
    }
}

fn merge_double(left: bool, reg: u64, mem: u64, shift: u32) -> (r: u64)
    requires
        shift <= 56,
    ensures
        r == double_merged(left, reg, mem, shift),
{
    if left {
        (reg & (0x00FF_FFFF_FFFF_FFFFu64 >> shift)) | (mem << (56 - shift))
    } else {
        (reg & if shift == 0 {
            0u64
        } else {
            !(u64::MAX >> shift)
        }) | (mem >> shift)
    }
}

pub open spec fn double_spread(left: bool, reg: u64, mem: u64, shift: u32) -> u64 {
    if left {
        (reg >> ((56 - shift) as u32)) | (mem & (0xFFFF_FFFF_FFFF_FF00u64 << shift))
    } else {
        (reg << shift) | (mem & (if shift == 0 {
            0u64
        } else {
            u64::MAX >> ((64 - shift) as u32)
        }))
    }
}

fn spread_double(left: bool, reg: u64, mem: u64, shift: u32) -> (r: u64)
    requires
        shift <= 56,
    ensures
        r == double_spread(left, reg, mem, shift),
{
    if left {
        (reg >> (56 - shift)) | (mem & (0xFFFF_FFFF_FFFF_FF00u64 << shift))
    } else {
        (reg << shift) | (mem & if shift == 0 {
            0u64
        } else {
            u64::MAX >> (64 - shift)
        })
    }
}

/// An unaligned word spans two aligned ones: lwr at its low end and lwl at
/// its high end load it whole, whatever the register held.
pub proof fn law_unaligned_loads_join(reg: u32, low: u32, high: u32, shift: u32)
    requires
        shift == 8 || shift == 16 || shift == 24,
    ensures
        word_merged(true, word_merged(false, reg, low, shift), high, (shift - 8) as u32) == (low >> shift) | (high << ((32
            - shift) as u32)),
{
    let a = (reg & !(0xFFFF_FFFFu32 >> shift)) | (low >> shift);
    let k = (shift - 8) as u32;
    let l = (24 - k) as u32;
    let n = (32 - shift) as u32;
    assert(((a & (0x00FF_FFFFu32 >> k)) | (high << l)) == (low >> shift) | (high << n)) by (bit_vector)
        requires
            shift == 8 || shift == 16 || shift == 24,
            a == (reg & !(0xFFFF_FFFFu32 >> shift)) | (low >> shift),
            k == shift - 8,
            l == 24 - k,
            n == 32 - shift,
    ;
}

impl Machine {
    pub open spec fn ended(self, r: (CpuModel, Outcome)) -> (Machine, Outcome) {
        (Machine { cpu: r.0, ..self }, r.1)
    }

    /// Address of a load or store.
    pub open spec fn address(self, instr: u32) -> u32 {
        self.cpu.r32(rs(instr)).wrapping_add(low32(simm(immediate(instr))))
    }

    #[verifier::opaque]
    pub open spec fn fits(self, vaddr: u32, n: usize) -> bool {
        BusModel::fits(self.bus.phys(vaddr), n)
    }

    /// What a read gives, and the bus after it.
    #[verifier::opaque]
    pub open spec fn value(self, vaddr: u32, n: usize) -> u64 {
        self.bus.phys_value(self.bus.phys(vaddr), n)
    }

    #[verifier::opaque]
    pub open spec fn after_read(self, vaddr: u32) -> BusModel {
        self.bus.phys_read(self.bus.phys(vaddr))
    }

    #[verifier::opaque]
    pub open spec fn after_write(self, vaddr: u32, n: usize, v: u64) -> BusModel {
        self.bus.phys_written(self.bus.phys(vaddr), n, v)
    }

    /// A plain load into a GPR.
    #[verifier::opaque]
    pub open spec fn load(self, instr: u32) -> (Machine, Outcome) {
        let op = opcode(instr);
        let a = self.address(instr);
        let n = access_size(op);
        if self.fits(a, n) {
            let v = loaded_value(op, self.value(a, n));
            (Machine { cpu: self.cpu.set64(rt(instr), v), bus: self.after_read(a) }, Outcome::Done)
        } else {
            (self, Outcome::OutOfRange)
        }
    }

    /// A plain store of a GPR.
    #[verifier::opaque]
    pub open spec fn store(self, instr: u32) -> (Machine, Outcome) {
        let op = opcode(instr);
        let a = self.address(instr);
        let n = access_size(op);
        if self.fits(a, n) {
            let v = stored_value(n, self.cpu.r64(rt(instr)));
            (Machine { bus: self.after_write(a, n, v), ..self }, Outcome::Done)
        } else {
            (self, Outcome::OutOfRange)
        }
    }

    /// lwc1 / swc1.
    #[verifier::opaque]
    pub open spec fn fpu_load(self, instr: u32) -> (Machine, Outcome) {
        let a = self.address(instr);
        if self.fits(a, 4) {
            let v = low32(self.value(a, 4));
            (
                Machine {
                    cpu: CpuModel { fpr: self.cpu.fpr.update(rt(instr), v), ..self.cpu },
                    bus: self.after_read(a),
                },
                Outcome::Done,
            )
        } else {
            (self, Outcome::OutOfRange)
        }
    }

    #[verifier::opaque]
    pub open spec fn fpu_store(self, instr: u32) -> (Machine, Outcome) {
        let a = self.address(instr);
        if self.fits(a, 4) {
            (
                Machine { bus: self.after_write(a, 4, self.cpu.fpr[rt(instr)] as u64), ..self },
                Outcome::Done,
            )
        } else {
            (self, Outcome::OutOfRange)
        }
    }

    /// lwl, lwr, ldl and ldr.
    #[verifier::opaque]
    pub open spec fn load_part(self, instr: u32, left: bool, double: bool) -> (Machine, Outcome) {
        let a = self.address(instr);
        let t = rt(instr);
        let (n, at): (usize, u32) = if double {
            (8, (a - a % 8) as u32)
        } else {
            (4, (a - a % 4) as u32)
        };
        if self.fits(at, n) {
            let v = self.value(at, n);
            let cpu = if double {
                self.cpu.set64(t, double_merged(left, self.cpu.r64(t), v, (a % 8 * 8) as u32))
            } else {
                self.cpu.set32(t, word_merged(left, self.cpu.r32(t), low32(v), (a % 4 * 8) as u32))
            };
            (Machine { cpu, bus: self.after_read(at) }, Outcome::Done)
        } else {
            (self, Outcome::OutOfRange)
        }
    }

    /// swl, swr, sdl and sdr: the memory word is read, merged and written.
    #[verifier::opaque]
    pub open spec fn store_part(self, instr: u32, left: bool, double: bool) -> (Machine, Outcome) {
        let a = self.address(instr);
        let t = rt(instr);
        let (n, at): (usize, u32) = if double {
            (8, (a - a % 8) as u32)
        } else {
            (4, (a - a % 4) as u32)
        };
        if self.fits(at, n) {
            let v = self.value(at, n);
            let read = self.after_read(at);
            let w = if double {
                double_spread(left, self.cpu.r64(t), v, (a % 8 * 8) as u32)
            } else {
                word_spread(left, self.cpu.r32(t), low32(v), (a % 4 * 8) as u32) as u64
            };
            (Machine { bus: read.phys_written(read.phys(at), n, w), ..self }, Outcome::Done)
        } else {
            (self, Outcome::OutOfRange)
        }
    }

    /// lq, sq, lqc2, sqc2: 128 bits, the address aligned down.
    pub open spec fn quad_fits(self, at: u32) -> bool {
        self.fits(at, 8) && self.fits((at + 8) as u32, 8)
    }

    /// 128 bits on the bus, as two accesses.
    #[verifier::opaque]
    pub open spec fn quad_at(self, at: u32) -> Reg {
        Reg { lo: self.value(at, 8), hi: self.after_read(at).phys_value(self.bus.phys((at + 8) as u32), 8) }
    }

    #[verifier::opaque]
    pub open spec fn after_quad(self, at: u32) -> BusModel {
        self.after_read(at).phys_read(self.bus.phys((at + 8) as u32))
    }

    #[verifier::opaque]
    pub open spec fn quad_written(self, at: u32, v: Reg) -> BusModel {
        self.after_write(at, 8, v.lo).phys_written(self.bus.phys((at + 8) as u32), 8, v.hi)
    }

    #[verifier::opaque]
    pub open spec fn load_quad(self, instr: u32, vu: bool) -> (Machine, Outcome) {
        let a = self.address(instr);
        let at = (a - a % 16) as u32;
        let t = rt(instr);
        if self.quad_fits(at) {
            let v = self.quad_at(at);
            (
                Machine {
                    cpu: if vu {
                        CpuModel { vf: self.cpu.vf.update(t, v), ..self.cpu }
                    } else {
                        self.cpu.set128(t, v)
                    },
                    bus: self.after_quad(at),
                },
                Outcome::Done,
            )
        } else {
            (self, Outcome::OutOfRange)
        }
    }

    #[verifier::opaque]
    pub open spec fn store_quad(self, instr: u32, vu: bool) -> (Machine, Outcome) {
        let a = self.address(instr);
        let at = (a - a % 16) as u32;
        let t = rt(instr);
        let v = if vu {
            self.cpu.vf[t]
        } else {
            self.cpu.gpr[t]
        };
        if self.quad_fits(at) {
            (Machine { bus: self.quad_written(at, v), ..self }, Outcome::Done)
        } else {
            (self, Outcome::OutOfRange)
        }
    }

    /// The INTC and DMAC interrupt lines.
    pub open spec fn int0(self) -> bool {
        self.bus.ee.now >= self.bus.ee.intc_ready_at
    }

    pub open spec fn int1(self) -> bool {
        self.bus.ee.d_stat & self.bus.ee.d_mask & 0x3FF != 0
    }

    /// COP0.
    #[verifier::opaque]
    pub open spec fn cop0(self, instr: u32) -> (Machine, Outcome) {
        let (s, t, d) = (rs(instr), rt(instr), rd(instr));
        let c = self.cpu;
        if s == 0x00 {
            self.ended(done(c.set32(t, cop0_value(c.cop0, d, self.bus.ee.now, self.int0(), self.int1()))))
        } else if s == 0x04 {
            self.ended(done(CpuModel { cop0: cop0_written(c.cop0, d, c.r32(t)), ..c }))
        } else if s == 0x08 {
            // CPCOND0 always holds: DMA is always finished.
            self.ended(c.branched_on(true, instr))
        } else if s >= 0x10 {
            self.cop0_function(instr)
        } else {
            (self, Outcome::Unimplemented)
        }
    }

    /// tlbwi, eret, ei and di; tlbr, tlbwr and tlbp do nothing.
    pub open spec fn cop0_function(self, instr: u32) -> (Machine, Outcome) {
        let c = self.cpu;
        let status = c.cop0[STATUS as int];
        match function(instr) {
            0x01 | 0x06 | 0x08 => (self, Outcome::Done),
            0x02 => {
                let idx = c.cop0[0] % 64;
                let e = indexed_entry(c.cop0);
                (
                    if idx < 48 {
                        Machine {
                            cpu: CpuModel { tlb: c.tlb.update(idx as int, e), ..c },
                            bus: BusModel { tlb: self.bus.tlb.update(idx as int, e), flush: true, ..self.bus },
                        }
                    } else {
                        self
                    },
                    Outcome::Done,
                )
            },
            0x18 => {
                let (regs, to) = returned(c.cop0);
                self.ended(
                    done(CpuModel { cop0: regs, pc: to, next_pc: to.wrapping_add(4), delay: false, ..c }),
                )
            },
            0x38 => self.ended(done(CpuModel { cop0: c.cop0.update(STATUS as int, status | STATUS_EIE), ..c })),
            0x39 => self.ended(done(CpuModel { cop0: c.cop0.update(STATUS as int, status & !STATUS_EIE), ..c })),
            _ => (self, Outcome::Unimplemented),
        }
    }

    /// One instruction executed.
    pub open spec fn executed(self, instr: u32) -> (Machine, Outcome) {
        let op = opcode(instr);
        let c = self.cpu;
        let (s, t) = (rs(instr), rt(instr));
        if immediate_value(op, c.r64(s), immediate(instr)) is Some {
            self.ended(done(c.set64(t, immediate_value(op, c.r64(s), immediate(instr))->Some_0)))
        } else if branch_taken(op, c.r64(s), c.r64(t)) is Some {
            self.ended(
                done(c.branched_if(branch_taken(op, c.r64(s), c.r64(t))->Some_0, immediate(instr), op >= 0x14)),
            )
        } else {
            match op {
                0x00 => self.ended(c.special(instr)),
                0x01 => self.ended(c.regimm(instr)),
                0x02 => self.ended(done(c.branched(jump_target(c.pc, instr)))),
                0x03 => self.ended(done(c.set32(31, c.next_pc).branched(jump_target(c.pc, instr)))),
                0x10 => self.cop0(instr),
                0x11 => self.ended(c.cop1(instr)),
                0x12 => self.ended(c.cop2(instr)),
                0x1C => self.ended(c.mmi(instr)),
                // cache, pref
                0x2F | 0x33 => (self, Outcome::Done),
                _ => self.accessed(instr),
            }
        }
    }

    /// Loads and stores.
    #[verifier::opaque]
    pub open spec fn accessed(self, instr: u32) -> (Machine, Outcome) {
        match opcode(instr) {
            0x1A => self.load_part(instr, true, true),
            0x1B => self.load_part(instr, false, true),
            0x1E => self.load_quad(instr, false),
            0x1F => self.store_quad(instr, false),
            0x20 | 0x21 | 0x23 | 0x24 | 0x25 | 0x27 | 0x37 => self.load(instr),
            0x22 => self.load_part(instr, true, false),
            0x26 => self.load_part(instr, false, false),
            0x28 | 0x29 | 0x2B | 0x3F => self.store(instr),
            0x2A => self.store_part(instr, true, false),
            0x2C => self.store_part(instr, true, true),
            0x2D => self.store_part(instr, false, true),
            0x2E => self.store_part(instr, false, false),
            0x31 => self.fpu_load(instr),
            0x36 => self.load_quad(instr, true),
            0x39 => self.fpu_store(instr),
            0x3E => self.store_quad(instr, true),
            _ => (self, Outcome::Unimplemented),
        }
    }

    /// An interrupt taken, if one is due.
    pub open spec fn interrupted(self) -> Machine {
        let c = self.cpu;
        if interrupted(c.cop0, self.int0(), self.int1()) {
            Machine { cpu: CpuModel { current: c.pc, in_delay: c.delay, ..c }.raised(EXC_INTERRUPT), ..self }
        } else {
            self
        }
    }

    /// Ready to execute what the pc points at.
    pub open spec fn begun(self) -> Machine {
        let c = self.cpu;
        Machine {
            cpu: CpuModel {
                current: c.pc,
                in_delay: c.delay,
                delay: false,
                pc: c.next_pc,
                next_pc: c.next_pc.wrapping_add(4),
                ..c
            },
            bus: self.after_read(c.pc),
        }
    }

    /// One step: an interrupt if one is due, then one instruction.
    #[verifier::opaque]
    pub open spec fn stepped(self) -> (Machine, Outcome) {
        let m = self.interrupted();
        if self.cpu.pc == 0 {
            (self, Outcome::Null)
        } else if !m.fits(m.cpu.pc, 4) {
            (m, Outcome::OutOfRange)
        } else {
            m.begun().executed(low32(m.value(m.cpu.pc, 4)))
        }
    }

    /// One instruction executed as if fetched at `addr`, outside any delay
    /// slot.
    pub open spec fn placed_at(self, addr: u32) -> Machine {
        Machine {
            cpu: CpuModel {
                current: addr,
                in_delay: false,
                delay: false,
                pc: addr.wrapping_add(4),
                next_pc: addr.wrapping_add(8),
                ..self.cpu
            },
            ..self
        }
    }
}

impl Cpu {
    pub open spec fn with(&self, bus: Bus) -> Machine {
        Machine { cpu: self.model(), bus: bus.model() }
    }

    /// Deliver the host's result of a single-precision operation.
    pub fn finish_fpu(&mut self, call: FpuCall, v: u32)
        requires
            old(self).wf(),
            call.fd < 32,
        ensures
            final(self).wf(),
            final(self).model() == old(self).model().fpu_finished(call, v),
    {
        let (place, clamps) = fpu_place_of(call.op);
        let w: u32 = if clamps { Fpu::clamp(v) } else { v };
        match place {
            FpuPlace::Register => {
                self.fpu.regs[call.fd as usize] = w;
            },
            FpuPlace::Accumulator => {
                self.fpu.acc = w;
            },
            FpuPlace::Condition => {
                self.fpu.condition = v != 0;
            },
        }
    }

    fn branch_on(&mut self, cond: bool, instr: u32) -> (r: Outcome)
        requires
            old(self).wf(),
        ensures
            final(self).wf(),
            (final(self).model(), r) == old(self).model().branched_on(cond, instr),
    {
        let (s, t, d): (usize, usize, usize) = fields(instr);
        if t < 4 {
            self.branch_cond(cond == (t % 2 == 1), instr % 0x1_0000, t >= 2);
            Outcome::Done
        } else {
            Outcome::Unimplemented
        }
    }

    fn op_cop1_single(&mut self, instr: u32) -> (r: Outcome)
        requires
            old(self).wf(),
        ensures
            final(self).wf(),
            (final(self).model(), r) == old(self).model().cop1_single(instr),
            r matches Outcome::Fpu(call) ==> call.fd < 32,
    {
        let (s, t, d): (usize, usize, usize) = fields(instr);
        let fd: u32 = instr / 64 % 32;
        let (a, b): (u32, u32) = (self.fpu.regs[d], self.fpu.regs[t]);
        match instr % 64 {
            0x05 => self.fpu.regs[fd as usize] = a % 0x8000_0000,
            0x06 => self.fpu.regs[fd as usize] = a,
            0x07 => self.fpu.regs[fd as usize] = a ^ 0x8000_0000,
            0x30 => self.fpu.condition = false,
            f => {
                return match fpu_function_of(f) {
                    Some(op) => Outcome::Fpu(FpuCall { op, fd, a, b, acc: self.fpu.acc }),
                    None => Outcome::Unimplemented,
                };
            },
        }
        Outcome::Done
    }

    #[verifier::rlimit(40)]
    fn op_cop1(&mut self, instr: u32) -> (r: Outcome)
        requires
            old(self).wf(),
        ensures
            final(self).wf(),
            (final(self).model(), r) == old(self).model().cop1(instr),
            r matches Outcome::Fpu(call) ==> call.fd < 32,
    {
        proof {
            reveal(CpuModel::cop1);
        }
        let (s, t, d): (usize, usize, usize) = fields(instr);
        match s {
            0x00 => self.set32(t, self.fpu.regs[d]),
            0x02 => {
                let v: u32 = self.fpu.read_control(d);
                self.set32(t, v);
            },
            0x04 => {
                let v: u32 = self.r32(t);
                self.fpu.regs[d] = v;
            },
            0x06 => {
                let v: u32 = self.r32(t);
                self.fpu.write_control(d, v);
            },
            0x08 => {
                return self.branch_on(self.fpu.condition, instr);
            },
            0x10 => {
                return self.op_cop1_single(instr);
            },
            0x14 => {
                if instr % 64 == 0x20 {
                    return Outcome::Fpu(
                        FpuCall {
                            op: FpuOp::FromWord,
                            fd: instr / 64 % 32,
                            a: self.fpu.regs[d],
                            b: self.fpu.regs[t],
                            acc: self.fpu.acc,
                        },
                    );
                }
                return Outcome::Unimplemented;
            },
            _ => {
                return Outcome::Unimplemented;
            },
        }
        Outcome::Done
    }

    pub(crate) fn op_cop2(&mut self, instr: u32) -> (r: Outcome)
        requires
            old(self).wf(),
        ensures
            final(self).wf(),
            (final(self).model(), r) == old(self).model().cop2(instr),
    {
        proof {
            reveal(CpuModel::cop2);
        }
        let (s, t, d): (usize, usize, usize) = fields(instr);
        match s {
            0x01 => self.set128(t, self.vu0_vf[d]),
            0x02 => self.set32(t, self.vu0_ctrl[d]),
            0x05 => {
                let v = self.gpr[t];
                self.vu0_vf[d] = v;
            },
            0x06 => {
                let v: u32 = self.r32(t);
                self.vu0_ctrl[d] = v;
            },
            _ => {
                if s < 0x10 {
                    return Outcome::Unimplemented;
                }
            },
        }
        Outcome::Done
    }

    // --- loads and stores --------------------------------------------------------

    fn address(&self, instr: u32) -> (a: u32)
        requires
            self.wf(),
        ensures
            a == self.model().r32(rs(instr)).wrapping_add(low32(simm(immediate(instr)))),
    {
        let (s, t, d): (usize, usize, usize) = fields(instr);
        self.r32(s).wrapping_add(low32(simm(instr % 0x1_0000)))
    }

    fn op_load(&mut self, instr: u32, bus: &mut Bus) -> (r: Outcome)
        requires
            old(self).wf(),
            old(bus).wf(),
        ensures
            final(self).wf(),
            final(bus).wf(),
            (final(self).with(*final(bus)), r) == old(self).with(*old(bus)).load(instr),
    {
        proof {
            reveal(Machine::load);
            reveal(Machine::fits);
            reveal(Machine::value);
            reveal(Machine::after_read);
            reveal(Machine::after_write);
        }
        let op: u32 = instr / 0x400_0000;
        let a: u32 = self.address(instr);
        let n: usize = access_size_of(op);
        if !bus.fits_at(a, n) {
            return Outcome::OutOfRange;
        }
        let v: u64 = bus.read(a, n);
        let (s, t, d): (usize, usize, usize) = fields(instr);
        self.set64(t, load_extend(op, v));
        Outcome::Done
    }

    fn op_store(&mut self, instr: u32, bus: &mut Bus) -> (r: Outcome)
        requires
            old(self).wf(),
            old(bus).wf(),
        ensures
            final(self).wf(),
            final(bus).wf(),
            (final(self).with(*final(bus)), r) == old(self).with(*old(bus)).store(instr),
    {
        proof {
            reveal(Machine::store);
            reveal(Machine::fits);
            reveal(Machine::value);
            reveal(Machine::after_read);
            reveal(Machine::after_write);
        }
        let op: u32 = instr / 0x400_0000;
        let a: u32 = self.address(instr);
        let n: usize = access_size_of(op);
        if !bus.fits_at(a, n) {
            return Outcome::OutOfRange;
        }
        let (s, t, d): (usize, usize, usize) = fields(instr);
        bus.write(a, n, store_cut(n, self.r64(t)));
        Outcome::Done
    }

    fn op_fpu_load(&mut self, instr: u32, bus: &mut Bus) -> (r: Outcome)
        requires
            old(self).wf(),
            old(bus).wf(),
        ensures
            final(self).wf(),
            final(bus).wf(),
            (final(self).with(*final(bus)), r) == old(self).with(*old(bus)).fpu_load(instr),
    {
        proof {
            reveal(Machine::fpu_load);
            reveal(Machine::fits);
            reveal(Machine::value);
            reveal(Machine::after_read);
            reveal(Machine::after_write);
        }
        let a: u32 = self.address(instr);
        if !bus.fits_at(a, 4) {
            return Outcome::OutOfRange;
        }
        let v: u32 = bus.read32(a);
        let (s, t, d): (usize, usize, usize) = fields(instr);
        self.fpu.regs[t] = v;
        Outcome::Done
    }

    fn op_fpu_store(&mut self, instr: u32, bus: &mut Bus) -> (r: Outcome)
        requires
            old(self).wf(),
            old(bus).wf(),
        ensures
            final(self).wf(),
            final(bus).wf(),
            (final(self).with(*final(bus)), r) == old(self).with(*old(bus)).fpu_store(instr),
    {
        proof {
            reveal(Machine::fpu_store);
            reveal(Machine::fits);
            reveal(Machine::value);
            reveal(Machine::after_read);
            reveal(Machine::after_write);
        }
        let a: u32 = self.address(instr);
        if !bus.fits_at(a, 4) {
            return Outcome::OutOfRange;
        }
        let (s, t, d): (usize, usize, usize) = fields(instr);
        bus.write32(a, self.fpu.regs[t]);
        Outcome::Done
    }

    fn op_load_part(&mut self, instr: u32, left: bool, double: bool, bus: &mut Bus) -> (r: Outcome)
        requires
            old(self).wf(),
            old(bus).wf(),
        ensures
            final(self).wf(),
            final(bus).wf(),
            (final(self).with(*final(bus)), r) == old(self).with(*old(bus)).load_part(instr, left, double),
    {
        proof {
            reveal(Machine::load_part);
            reveal(Machine::fits);
            reveal(Machine::value);
            reveal(Machine::after_read);
            reveal(Machine::after_write);
        }
        let a: u32 = self.address(instr);
        let (s, t, d): (usize, usize, usize) = fields(instr);
        if double {
            let at: u32 = a - a % 8;
            if !bus.fits_at(at, 8) {
                return Outcome::OutOfRange;
            }
            let v: u64 = bus.read(at, 8);
            let w: u64 = merge_double(left, self.r64(t), v, a % 8 * 8);
            self.set64(t, w);
        } else {
            let at: u32 = a - a % 4;
            if !bus.fits_at(at, 4) {
                return Outcome::OutOfRange;
            }
            let v: u64 = bus.read(at, 4);
            let w: u32 = merge_word(left, self.r32(t), low32(v), a % 4 * 8);
            self.set32(t, w);
        }
        Outcome::Done
    }

    fn op_store_part(&mut self, instr: u32, left: bool, double: bool, bus: &mut Bus) -> (r: Outcome)
        requires
            old(self).wf(),
            old(bus).wf(),
        ensures
            final(self).wf(),
            final(bus).wf(),
            (final(self).with(*final(bus)), r) == old(self).with(*old(bus)).store_part(instr, left, double),
    {
        proof {
            reveal(Machine::store_part);
            reveal(Machine::fits);
            reveal(Machine::value);
            reveal(Machine::after_read);
            reveal(Machine::after_write);
        }
        let a: u32 = self.address(instr);
        let (s, t, d): (usize, usize, usize) = fields(instr);
        let (n, at): (usize, u32) = if double { (8, a - a % 8) } else { (4, a - a % 4) };
        if !bus.fits_at(at, n) {
            return Outcome::OutOfRange;
        }
        let v: u64 = bus.read(at, n);
        let w: u64 = if double {
            spread_double(left, self.r64(t), v, a % 8 * 8)
        } else {
            spread_word(left, self.r32(t), low32(v), a % 4 * 8) as u64
        };
        bus.write(at, n, w);
        Outcome::Done
    }

    fn op_load_quad(&mut self, instr: u32, vu: bool, bus: &mut Bus) -> (r: Outcome)
        requires
            old(self).wf(),
            old(bus).wf(),
        ensures
            final(self).wf(),
            final(bus).wf(),
            (final(self).with(*final(bus)), r) == old(self).with(*old(bus)).load_quad(instr, vu),
    {
        proof {
            reveal(Machine::load_quad);
            reveal(Machine::quad_at);
            reveal(Machine::after_quad);
            reveal(Machine::quad_written);
            reveal(Machine::fits);
            reveal(Machine::value);
            reveal(Machine::after_read);
            reveal(Machine::after_write);
        }
        let a: u32 = self.address(instr);
        let at: u32 = a - a % 16;
        let (s, t, d): (usize, usize, usize) = fields(instr);
        if !bus.fits_at(at, 8) || !bus.fits_at(at + 8, 8) {
            return Outcome::OutOfRange;
        }
        let q = bus.read128(at);
        let v = Reg { lo: q[0], hi: q[1] };
        if vu {
            self.vu0_vf[t] = v;
        } else {
            self.set128(t, v);
        }
        Outcome::Done
    }

    fn op_store_quad(&mut self, instr: u32, vu: bool, bus: &mut Bus) -> (r: Outcome)
        requires
            old(self).wf(),
            old(bus).wf(),
        ensures
            final(self).wf(),
            final(bus).wf(),
            (final(self).with(*final(bus)), r) == old(self).with(*old(bus)).store_quad(instr, vu),
    {
        proof {
            reveal(Machine::store_quad);
            reveal(Machine::quad_at);
            reveal(Machine::after_quad);
            reveal(Machine::quad_written);
            reveal(Machine::fits);
            reveal(Machine::value);
            reveal(Machine::after_read);
            reveal(Machine::after_write);
        }
        let a: u32 = self.address(instr);
        let at: u32 = a - a % 16;
        let (s, t, d): (usize, usize, usize) = fields(instr);
        if !bus.fits_at(at, 8) || !bus.fits_at(at + 8, 8) {
            return Outcome::OutOfRange;
        }
        let v = if vu { self.vu0_vf[t] } else { self.gpr[t] };
        bus.write128(at, [v.lo, v.hi]);
        Outcome::Done
    }

    fn access(&mut self, instr: u32, bus: &mut Bus) -> (r: Outcome)
        requires
            old(self).wf(),
            old(bus).wf(),
        ensures
            final(self).wf(),
            final(bus).wf(),
            (final(self).with(*final(bus)), r) == old(self).with(*old(bus)).accessed(instr),
    {
        proof {
            reveal(Machine::accessed);
        }
        match instr / 0x400_0000 {
            0x1A => self.op_load_part(instr, true, true, bus),
            0x1B => self.op_load_part(instr, false, true, bus),
            0x1E => self.op_load_quad(instr, false, bus),
            0x1F => self.op_store_quad(instr, false, bus),
            0x20 | 0x21 | 0x23 | 0x24 | 0x25 | 0x27 | 0x37 => self.op_load(instr, bus),
            0x22 => self.op_load_part(instr, true, false, bus),
            0x26 => self.op_load_part(instr, false, false, bus),
            0x28 | 0x29 | 0x2B | 0x3F => self.op_store(instr, bus),
            0x2A => self.op_store_part(instr, true, false, bus),
            0x2C => self.op_store_part(instr, true, true, bus),
            0x2D => self.op_store_part(instr, false, true, bus),
            0x2E => self.op_store_part(instr, false, false, bus),
            0x31 => self.op_fpu_load(instr, bus),
            0x36 => self.op_load_quad(instr, true, bus),
            0x39 => self.op_fpu_store(instr, bus),
            0x3E => self.op_store_quad(instr, true, bus),
            _ => Outcome::Unimplemented,
        }
    }

    // --- COP0 --------------------------------------------------------------------

    fn op_cop0_function(&mut self, instr: u32, bus: &mut Bus) -> (r: Outcome)
        requires
            old(self).wf(),
            old(bus).wf(),
        ensures
            final(self).wf(),
            final(bus).wf(),
            (final(self).with(*final(bus)), r) == old(self).with(*old(bus)).cop0_function(instr),
    {
        match instr % 64 {
            0x01 | 0x06 | 0x08 => {},
            0x02 => {
                self.cop0.tlb_write_indexed();
                let idx: usize = (self.cop0.regs[0] % 64) as usize;
                bus.ee_tlb_write(idx, self.cop0.regs[5], self.cop0.regs[10], self.cop0.regs[2], self.cop0.regs[3]);
            },
            0x18 => {
                let target: u32 = self.cop0.eret();
                self.pc = target;
                self.next_pc = target.wrapping_add(4);
                self.next_is_delay = false;
            },
            0x38 => self.cop0.set_eie(true),
            0x39 => self.cop0.set_eie(false),
            _ => {
                return Outcome::Unimplemented;
            },
        }
        Outcome::Done
    }

    fn op_cop0(&mut self, instr: u32, bus: &mut Bus) -> (r: Outcome)
        requires
            old(self).wf(),
            old(bus).wf(),
        ensures
            final(self).wf(),
            final(bus).wf(),
            (final(self).with(*final(bus)), r) == old(self).with(*old(bus)).cop0(instr),
    {
        proof {
            reveal(Machine::cop0);
        }
        let (s, t, d): (usize, usize, usize) = fields(instr);
        match s {
            0x00 => {
                let v: u32 = self.cop0.read(d, bus.ee.now, bus.ee_int0_pending(), bus.ee_int1_pending());
                self.set32(t, v);
                Outcome::Done
            },
            0x04 => {
                let v: u32 = self.r32(t);
                self.cop0.write(d, v);
                Outcome::Done
            },
            0x08 => self.branch_on(true, instr),
            _ => {
                if s >= 0x10 {
                    self.op_cop0_function(instr, bus)
                } else {
                    Outcome::Unimplemented
                }
            },
        }
    }

    // --- main loop ---------------------------------------------------------------

    pub fn execute(&mut self, instr: u32, bus: &mut Bus) -> (r: Outcome)
        requires
            old(self).wf(),
            old(bus).wf(),
        ensures
            final(self).wf(),
            final(bus).wf(),
            (final(self).with(*final(bus)), r) == old(self).with(*old(bus)).executed(instr),
    {
        let op: u32 = instr / 0x400_0000;
        let imm: u32 = instr % 0x1_0000;
        let (s, t, d): (usize, usize, usize) = fields(instr);
        let (a, b): (u64, u64) = (self.r64(s), self.r64(t));
        if let Some(v) = immediate_of(op, a, imm) {
            self.set64(t, v);
            return Outcome::Done;
        }
        if let Some(taken) = branch_of(op, a, b) {
            self.branch_cond(taken, imm, op >= 0x14);
            return Outcome::Done;
        }
        match op {
            0x00 => self.op_special(instr),
            0x01 => self.op_regimm(instr),
            0x02 => {
                let target: u32 = jump_of(self.pc, instr);
                self.branch_to(target);
                Outcome::Done
            },
            0x03 => {
                let target: u32 = jump_of(self.pc, instr);
                self.set32(31, self.next_pc);
                self.branch_to(target);
                Outcome::Done
            },
            0x10 => self.op_cop0(instr, bus),
            0x11 => self.op_cop1(instr),
            0x12 => self.op_cop2(instr),
            0x1C => self.op_mmi(instr),
            0x2F | 0x33 => Outcome::Done,
            _ => self.access(instr, bus),
        }
    }

    /// Whether an interrupt is due.
    pub fn interrupt_pending(&self, bus: &Bus) -> (r: bool)
        requires
            self.wf(),
        ensures
            r == interrupted(self.cop0.regs@, self.with(*bus).int0(), self.with(*bus).int1()),
    {
        self.cop0.interrupt_pending(bus.ee_int0_pending(), bus.ee_int1_pending())
    }

    pub fn step(&mut self, bus: &mut Bus) -> (r: Outcome)
        requires
            old(self).wf(),
            old(bus).wf(),
        ensures
            final(self).wf(),
            final(bus).wf(),
            (final(self).with(*final(bus)), r) == old(self).with(*old(bus)).stepped(),
    {
        proof {
            reveal(Machine::stepped);
            reveal(Machine::fits);
            reveal(Machine::value);
            reveal(Machine::after_read);
        }
        if self.pc == 0 {
            return Outcome::Null;
        }
        if self.interrupt_pending(bus) {
            self.current_pc = self.pc;
            self.in_delay = self.next_is_delay;
            self.exception(EXC_INTERRUPT);
        }
        if !bus.fits_at(self.pc, 4) {
            return Outcome::OutOfRange;
        }
        self.current_pc = self.pc;
        self.in_delay = self.next_is_delay;
        self.next_is_delay = false;
        let instr: u32 = bus.fetch32(self.pc);
        self.pc = self.next_pc;
        self.next_pc = self.pc.wrapping_add(4);
        self.execute(instr, bus)
    }

    /// Run one instruction as if fetched at `addr`. Whether control was
    /// diverted: the next instruction is not the one that follows.
    pub fn exec_at(&mut self, bus: &mut Bus, addr: u32, instr: u32) -> (r: (bool, Outcome))
        requires
            old(self).wf(),
            old(bus).wf(),
        ensures
            final(self).wf(),
            final(bus).wf(),
            (final(self).with(*final(bus)), r.1) == old(self).with(*old(bus)).placed_at(addr).executed(instr),
            r.0 == final(self).model().diverted(addr),
    {
        self.current_pc = addr;
        self.in_delay = false;
        self.next_is_delay = false;
        self.pc = addr.wrapping_add(4);
        self.next_pc = addr.wrapping_add(8);
        let r = self.execute(instr, bus);
        (self.pc != addr.wrapping_add(4) || self.next_pc != addr.wrapping_add(8) || self.next_is_delay, r)
    }
}

} // verus!
