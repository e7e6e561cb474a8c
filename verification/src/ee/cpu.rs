//! The EE's registers and the instructions that touch nothing else.
//!
//! GPRs are 128-bit; 32/64-bit ops touch only the low half, as on hardware.
//! Branch delay slots are modeled with the pc/next_pc pair; the R5900 has no
//! load delay slots.

use vstd::prelude::*;
use crate::bus::tlb::TlbEntry;
use super::alu::{
    accumulated, count_signs, divide, divided, even_halves, flag, funnel, funnelled, halves, interleave_even_u16,
    interleave_u16, interleave_u32, interleave_u8, interleaved_bytes, interleaved_halves, interleaved_words, lanes,
    less, low32, madd, mult, negative, on_lanes, pack_u16, pack_u32, pack_u8, packed_bytes, packed_halves,
    packed_words, product, repeat_u16, repeated, sext32, shift_halves, shift_words, shifted_halves, shifted_words,
    sign_counts, sra32, sra64, LaneOp, Reg, Shift, Width,
};
use super::cop0::{excepted, no_tlb, reset_regs, vector, Cop0, STATUS, STATUS_EXL};
use super::fpu::Fpu;
use super::issue::{rd, rs, rt};

verus! {

/// Exception codes (Cause.ExcCode).
pub const EXC_INTERRUPT: u32 = 0;

pub const EXC_SYSCALL: u32 = 8;

pub const EXC_BREAK: u32 = 9;

pub const EXC_TRAP: u32 = 13;

/// Single-precision operations, whose results the host computes.
#[derive(Clone, Copy, PartialEq, Eq, Structural, Debug)]
pub enum FpuOp {
    /// Into a register: a + b, a - b, a * b, a / b, sqrt(|b|), a / sqrt(|b|).
    Sum,
    Difference,
    Product,
    Quotient,
    Root,
    OverRoot,
    /// Into ACC: a + b, a - b, a * b.
    SumAcc,
    DifferenceAcc,
    ProductAcc,
    /// ACC + a * b and ACC - a * b, into a register or into ACC.
    PlusProduct,
    MinusProduct,
    PlusProductAcc,
    MinusProductAcc,
    /// To an integer, truncating with saturation, and back.
    ToWord,
    FromWord,
    Max,
    Min,
    /// Into the condition: a == b, a < b, a <= b.
    Equal,
    Less,
    LessOrEqual,
}

/// An operation on bit patterns.
#[derive(Clone, Copy, PartialEq, Eq, Structural, Debug)]
pub struct FpuCall {
    pub op: FpuOp,
    pub fd: u32,
    pub a: u32,
    pub b: u32,
    pub acc: u32,
}

/// How an instruction ended.
#[derive(Clone, Copy, PartialEq, Eq, Structural, Debug)]
pub enum Outcome {
    Done,
    /// The host has to compute this and hand the result to
    /// [`Cpu::finish_fpu`].
    Fpu(FpuCall),
    /// No such instruction is implemented.
    Unimplemented,
    /// An access ran over the end of a memory.
    OutOfRange,
    /// A jump to address zero.
    Null,
}

pub struct Cpu {
    pub pc: u32,
    pub next_pc: u32,
    /// 128-bit GPRs. gpr[0] stays zero.
    pub gpr: Vec<Reg>,
    /// HI/LO for multiply pipelines 0 (low half) and 1 (high half).
    pub hi: Reg,
    pub lo: Reg,
    /// Shift-amount register (funnel shifts / QFSRV).
    pub sa: u32,
    pub cop0: Cop0,
    pub fpu: Fpu,
    /// VU0 macro-mode register shadow.
    pub vu0_vf: Vec<Reg>,
    pub vu0_ctrl: Vec<u32>,
    /// The next instruction to execute sits in a branch delay slot.
    pub next_is_delay: bool,
    /// PC of the instruction currently executing (for exceptions).
    pub current_pc: u32,
    pub in_delay: bool,
    /// An idle loop was recognised.
    pub idle: bool,
}

/// The registers over sequences.
pub struct CpuModel {
    pub pc: u32,
    pub next_pc: u32,
    pub gpr: Seq<Reg>,
    pub hi: Reg,
    pub lo: Reg,
    pub sa: u32,
    pub cop0: Seq<u32>,
    pub tlb: Seq<TlbEntry>,
    pub fpr: Seq<u32>,
    pub acc: u32,
    pub fcr31: u32,
    pub condition: bool,
    pub vf: Seq<Reg>,
    pub vctl: Seq<u32>,
    pub delay: bool,
    pub current: u32,
    pub in_delay: bool,
    pub idle: bool,
}

// --- what instructions compute ----------------------------------------------------

/// SPECIAL function, low six bits.
pub open spec fn function(instr: u32) -> u32 {
    instr % 64
}

/// Shift amount.
pub open spec fn amount(instr: u32) -> u32 {
    (instr / 64) % 32
}

/// Immediate.
pub open spec fn immediate(instr: u32) -> u32 {
    instr % 0x1_0000
}

pub open spec fn spec_simm(imm: u32) -> u64 {
    if imm >= 0x8000 {
        (imm + 0xFFFF_FFFF_FFFF_0000) as u64
    } else {
        imm as u64
    }
}

/// An immediate sign-extended.
#[verifier::when_used_as_spec(spec_simm)]
pub fn simm(imm: u32) -> (r: u64)
    requires
        imm < 0x1_0000,
    ensures
        r == spec_simm(imm),
{
    if imm >= 0x8000 {
        imm as u64 + 0xFFFF_FFFF_FFFF_0000
    } else {
        imm as u64
    }
}

/// What a SPECIAL instruction puts into rd, of those that only compute: `a`
/// and `b` are rs and rt, `n` the shift amount.
pub open spec fn special_value(f: u32, a: u64, b: u64, n: u32) -> Option<u64> {
    match f {
        0x00 => Some(sext32(low32(b) << n)),
        0x02 => Some(sext32(low32(b) >> n)),
        0x03 => Some(sext32(sra32(low32(b), n))),
        0x04 => Some(sext32(low32(b) << (low32(a) % 32))),
        0x06 => Some(sext32(low32(b) >> (low32(a) % 32))),
        0x07 => Some(sext32(sra32(low32(b), low32(a) % 32))),
        0x14 => Some(b << (low32(a) % 64)),
        0x16 => Some(b >> (low32(a) % 64)),
        0x17 => Some(sra64(b, low32(a) % 64)),
        0x20 | 0x21 => Some(sext32(low32(a).wrapping_add(low32(b)))),
        0x22 | 0x23 => Some(sext32(low32(a).wrapping_sub(low32(b)))),
        0x24 => Some(a & b),
        0x25 => Some(a | b),
        0x26 => Some(a ^ b),
        0x27 => Some(!(a | b)),
        0x2A => Some(flag(less(a, b))),
        0x2B => Some(flag(a < b)),
        0x2C | 0x2D => Some(a.wrapping_add(b)),
        0x2E | 0x2F => Some(a.wrapping_sub(b)),
        0x38 => Some(b << n),
        0x3A => Some(b >> n),
        0x3B => Some(sra64(b, n)),
        0x3C => Some(b << ((n + 32) as u32)),
        0x3E => Some(b >> ((n + 32) as u32)),
        0x3F => Some(sra64(b, (n + 32) as u32)),
        _ => None,
    }
}

pub fn special_of(f: u32, a: u64, b: u64, n: u32) -> (r: Option<u64>)
    requires
        n < 32,
    ensures
        r == special_value(f, a, b, n),
{
    match f {
        0x00 => Some(sext32(low32(b) << n)),
        0x02 => Some(sext32(low32(b) >> n)),
        0x03 => Some(sext32(sra32(low32(b), n))),
        0x04 => Some(sext32(low32(b) << (low32(a) % 32))),
        0x06 => Some(sext32(low32(b) >> (low32(a) % 32))),
        0x07 => Some(sext32(sra32(low32(b), low32(a) % 32))),
        0x14 => Some(b << (low32(a) % 64)),
        0x16 => Some(b >> (low32(a) % 64)),
        0x17 => Some(sra64(b, low32(a) % 64)),
        0x20 | 0x21 => Some(sext32(low32(a).wrapping_add(low32(b)))),
        0x22 | 0x23 => Some(sext32(low32(a).wrapping_sub(low32(b)))),
        0x24 => Some(a & b),
        0x25 => Some(a | b),
        0x26 => Some(a ^ b),
        0x27 => Some(!(a | b)),
        0x2A => Some(flag(less(a, b))),
        0x2B => Some(flag(a < b)),
        0x2C | 0x2D => Some(a.wrapping_add(b)),
        0x2E | 0x2F => Some(a.wrapping_sub(b)),
        0x38 => Some(b << n),
        0x3A => Some(b >> n),
        0x3B => Some(sra64(b, n)),
        0x3C => Some(b << (n + 32)),
        0x3E => Some(b >> (n + 32)),
        0x3F => Some(sra64(b, n + 32)),
        _ => None,
    }
}

/// What an immediate instruction puts into rt (the overflow exception of
/// the trapping forms is not modeled).
pub open spec fn immediate_value(op: u32, a: u64, imm: u32) -> Option<u64> {
    match op {
        0x08 | 0x09 => Some(sext32(low32(a).wrapping_add(low32(simm(imm))))),
        0x0A => Some(flag(less(a, simm(imm)))),
        0x0B => Some(flag(a < simm(imm))),
        0x0C => Some(a & (imm as u64)),
        0x0D => Some(a | (imm as u64)),
        0x0E => Some(a ^ (imm as u64)),
        0x0F => Some(sext32((imm * 0x1_0000) as u32)),
        0x18 | 0x19 => Some(a.wrapping_add(simm(imm))),
        _ => None,
    }
}

pub fn immediate_of(op: u32, a: u64, imm: u32) -> (r: Option<u64>)
    requires
        imm < 0x1_0000,
    ensures
        r == immediate_value(op, a, imm),
{
    match op {
        0x08 | 0x09 => Some(sext32(low32(a).wrapping_add(low32(simm(imm))))),
        0x0A => Some(flag(less(a, simm(imm)))),
        0x0B => Some(flag(a < simm(imm))),
        0x0C => Some(a & (imm as u64)),
        0x0D => Some(a | (imm as u64)),
        0x0E => Some(a ^ (imm as u64)),
        0x0F => Some(sext32(imm * 0x1_0000)),
        0x18 | 0x19 => Some(a.wrapping_add(simm(imm))),
        _ => None,
    }
}

/// Whether a branch instruction branches.
pub open spec fn branch_taken(op: u32, a: u64, b: u64) -> Option<bool> {
    match op {
        0x04 | 0x14 => Some(a == b),
        0x05 | 0x15 => Some(a != b),
        0x06 | 0x16 => Some(negative(a) || a == 0),
        0x07 | 0x17 => Some(!negative(a) && a != 0),
        _ => None,
    }
}

pub fn branch_of(op: u32, a: u64, b: u64) -> (r: Option<bool>)
    ensures
        r == branch_taken(op, a, b),
{
    match op {
        0x04 | 0x14 => Some(a == b),
        0x05 | 0x15 => Some(a != b),
        0x06 | 0x16 => Some(negative(a) || a == 0),
        0x07 | 0x17 => Some(!negative(a) && a != 0),
        _ => None,
    }
}

/// Whether a conditional trap traps.
pub open spec fn trap_taken(f: u32, a: u64, b: u64) -> Option<bool> {
    match f {
        0x30 => Some(!less(a, b)),
        0x31 => Some(a >= b),
        0x32 => Some(less(a, b)),
        0x33 => Some(a < b),
        0x34 => Some(a == b),
        0x36 => Some(a != b),
        _ => None,
    }
}

fn trap_of(f: u32, a: u64, b: u64) -> (r: Option<bool>)
    ensures
        r == trap_taken(f, a, b),
{
    match f {
        0x30 => Some(!less(a, b)),
        0x31 => Some(a >= b),
        0x32 => Some(less(a, b)),
        0x33 => Some(a < b),
        0x34 => Some(a == b),
        0x36 => Some(a != b),
        _ => None,
    }
}

/// Target of a relative branch from the delay slot's address.
pub open spec fn relative(pc: u32, imm: u32) -> u32 {
    ((pc + 4 * (if imm >= 0x8000 {
        imm - 0x1_0000
    } else {
        imm as int
    })) % 0x1_0000_0000) as u32
}

pub fn relative_of(pc: u32, imm: u32) -> (r: u32)
    requires
        imm < 0x1_0000,
    ensures
        r == relative(pc, imm),
{
    if imm >= 0x8000 {
        pc.wrapping_sub(4 * (0x1_0000 - imm))
    } else {
        pc.wrapping_add(4 * imm)
    }
}

/// Target of a jump: within the delay slot's 256 MiB.
pub open spec fn jump_target(pc: u32, instr: u32) -> u32 {
    (pc - pc % 0x1000_0000 + instr % 0x400_0000 * 4) as u32
}

pub fn jump_of(pc: u32, instr: u32) -> (r: u32)
    ensures
        r == jump_target(pc, instr),
{
    pc - pc % 0x1000_0000 + instr % 0x400_0000 * 4
}

/// What a lane operation of MMI0 or MMI1 does.
pub open spec fn lane_function(upper: bool, n: u32) -> Option<(LaneOp, Width)> {
    if !upper {
        match n {
            0x00 => Some((LaneOp::Sum, Width::Word)),
            0x01 => Some((LaneOp::Difference, Width::Word)),
            0x02 => Some((LaneOp::Greater, Width::Word)),
            0x03 => Some((LaneOp::Max, Width::Word)),
            0x04 => Some((LaneOp::Sum, Width::Half)),
            0x05 => Some((LaneOp::Difference, Width::Half)),
            0x06 => Some((LaneOp::Greater, Width::Half)),
            0x07 => Some((LaneOp::Max, Width::Half)),
            0x08 => Some((LaneOp::Sum, Width::Byte)),
            0x09 => Some((LaneOp::Difference, Width::Byte)),
            0x0A => Some((LaneOp::Greater, Width::Byte)),
            0x10 => Some((LaneOp::SumSigned, Width::Word)),
            0x11 => Some((LaneOp::DifferenceSigned, Width::Word)),
            0x14 => Some((LaneOp::SumSigned, Width::Half)),
            0x15 => Some((LaneOp::DifferenceSigned, Width::Half)),
            0x18 => Some((LaneOp::SumSigned, Width::Byte)),
            0x19 => Some((LaneOp::DifferenceSigned, Width::Byte)),
            _ => None,
        }
    } else {
        match n {
            0x01 => Some((LaneOp::Magnitude, Width::Word)),
            0x02 => Some((LaneOp::Equal, Width::Word)),
            0x03 => Some((LaneOp::Min, Width::Word)),
            0x05 => Some((LaneOp::Magnitude, Width::Half)),
            0x06 => Some((LaneOp::Equal, Width::Half)),
            0x07 => Some((LaneOp::Min, Width::Half)),
            0x0A => Some((LaneOp::Equal, Width::Byte)),
            0x10 => Some((LaneOp::SumUnsigned, Width::Word)),
            0x11 => Some((LaneOp::DifferenceUnsigned, Width::Word)),
            0x14 => Some((LaneOp::SumUnsigned, Width::Half)),
            0x15 => Some((LaneOp::DifferenceUnsigned, Width::Half)),
            0x18 => Some((LaneOp::SumUnsigned, Width::Byte)),
            0x19 => Some((LaneOp::DifferenceUnsigned, Width::Byte)),
            _ => None,
        }
    }
}

fn lane_function_of(upper: bool, n: u32) -> (r: Option<(LaneOp, Width)>)
    ensures
        r == lane_function(upper, n),
{
    if !upper {
        match n {
            0x00 => Some((LaneOp::Sum, Width::Word)),
            0x01 => Some((LaneOp::Difference, Width::Word)),
            0x02 => Some((LaneOp::Greater, Width::Word)),
            0x03 => Some((LaneOp::Max, Width::Word)),
            0x04 => Some((LaneOp::Sum, Width::Half)),
            0x05 => Some((LaneOp::Difference, Width::Half)),
            0x06 => Some((LaneOp::Greater, Width::Half)),
            0x07 => Some((LaneOp::Max, Width::Half)),
            0x08 => Some((LaneOp::Sum, Width::Byte)),
            0x09 => Some((LaneOp::Difference, Width::Byte)),
            0x0A => Some((LaneOp::Greater, Width::Byte)),
            0x10 => Some((LaneOp::SumSigned, Width::Word)),
            0x11 => Some((LaneOp::DifferenceSigned, Width::Word)),
            0x14 => Some((LaneOp::SumSigned, Width::Half)),
            0x15 => Some((LaneOp::DifferenceSigned, Width::Half)),
            0x18 => Some((LaneOp::SumSigned, Width::Byte)),
            0x19 => Some((LaneOp::DifferenceSigned, Width::Byte)),
            _ => None,
        }
    } else {
        match n {
            0x01 => Some((LaneOp::Magnitude, Width::Word)),
            0x02 => Some((LaneOp::Equal, Width::Word)),
            0x03 => Some((LaneOp::Min, Width::Word)),
            0x05 => Some((LaneOp::Magnitude, Width::Half)),
            0x06 => Some((LaneOp::Equal, Width::Half)),
            0x07 => Some((LaneOp::Min, Width::Half)),
            0x0A => Some((LaneOp::Equal, Width::Byte)),
            0x10 => Some((LaneOp::SumUnsigned, Width::Word)),
            0x11 => Some((LaneOp::DifferenceUnsigned, Width::Word)),
            0x14 => Some((LaneOp::SumUnsigned, Width::Half)),
            0x15 => Some((LaneOp::DifferenceUnsigned, Width::Half)),
            0x18 => Some((LaneOp::SumUnsigned, Width::Byte)),
            0x19 => Some((LaneOp::DifferenceUnsigned, Width::Byte)),
            _ => None,
        }
    }
}

/// What MMI0 and MMI1 put into rd: `a` and `b` are rs and rt.
pub open spec fn mmi01_value(upper: bool, n: u32, a: Reg, b: Reg, sa: u32) -> Option<Reg> {
    if lane_function(upper, n) is Some {
        Some(lanes(lane_function(upper, n)->Some_0.0, lane_function(upper, n)->Some_0.1, a, b))
    } else if !upper {
        match n {
            0x12 => Some(interleaved_words(b.lo, a.lo)),
            0x13 => Some(Reg { lo: packed_words(b), hi: packed_words(a) }),
            0x16 => Some(interleaved_halves(b.lo, a.lo)),
            0x17 => Some(Reg { lo: packed_halves(b), hi: packed_halves(a) }),
            0x1A => Some(interleaved_bytes(b.lo, a.lo)),
            0x1B => Some(Reg { lo: packed_bytes(b), hi: packed_bytes(a) }),
            _ => None,
        }
    } else {
        match n {
            0x12 => Some(interleaved_words(b.hi, a.hi)),
            0x16 => Some(interleaved_halves(b.hi, a.hi)),
            0x1A => Some(interleaved_bytes(b.hi, a.hi)),
            0x1B => Some(funnelled(a, b, sa % 256)),
            _ => None,
        }
    }
}

fn mmi01_of(upper: bool, n: u32, a: Reg, b: Reg, sa: u32) -> (r: Option<Reg>)
    ensures
        r == mmi01_value(upper, n, a, b, sa),
{
    if let Some((op, w)) = lane_function_of(upper, n) {
        return Some(on_lanes(op, w, a, b));
    }
    if !upper {
        match n {
            0x12 => Some(interleave_u32(b.lo, a.lo)),
            0x13 => Some(Reg { lo: pack_u32(b), hi: pack_u32(a) }),
            0x16 => Some(interleave_u16(b.lo, a.lo)),
            0x17 => Some(Reg { lo: pack_u16(b), hi: pack_u16(a) }),
            0x1A => Some(interleave_u8(b.lo, a.lo)),
            0x1B => Some(Reg { lo: pack_u8(b), hi: pack_u8(a) }),
            _ => None,
        }
    } else {
        match n {
            0x12 => Some(interleave_u32(b.hi, a.hi)),
            0x16 => Some(interleave_u16(b.hi, a.hi)),
            0x1A => Some(interleave_u8(b.hi, a.hi)),
            0x1B => Some(funnel(a, b, sa % 256)),
            _ => None,
        }
    }
}

/// What MMI2 and MMI3 put into rd.
pub open spec fn mmi23_value(upper: bool, n: u32, a: Reg, b: Reg, hi: Reg, lo: Reg) -> Option<Reg> {
    if !upper {
        match n {
            0x08 => Some(hi),
            0x09 => Some(lo),
            0x0A => Some(interleaved_halves(b.lo, a.hi)),
            0x0E => Some(Reg { lo: b.lo, hi: a.lo }),
            0x12 => Some(Reg { lo: a.lo & b.lo, hi: a.hi & b.hi }),
            0x13 => Some(Reg { lo: a.lo ^ b.lo, hi: a.hi ^ b.hi }),
            _ => None,
        }
    } else {
        match n {
            0x0A => Some(Reg { lo: even_halves(b.lo, a.lo), hi: even_halves(b.hi, a.hi) }),
            0x0E => Some(Reg { lo: a.hi, hi: b.hi }),
            0x12 => Some(Reg { lo: a.lo | b.lo, hi: a.hi | b.hi }),
            0x13 => Some(Reg { lo: !(a.lo | b.lo), hi: !(a.hi | b.hi) }),
            0x1B => Some(Reg { lo: repeated(b.lo), hi: repeated(b.hi) }),
            _ => None,
        }
    }
}

fn mmi23_of(upper: bool, n: u32, a: Reg, b: Reg, hi: Reg, lo: Reg) -> (r: Option<Reg>)
    ensures
        r == mmi23_value(upper, n, a, b, hi, lo),
{
    if !upper {
        match n {
            0x08 => Some(hi),
            0x09 => Some(lo),
            0x0A => Some(interleave_u16(b.lo, a.hi)),
            0x0E => Some(Reg { lo: b.lo, hi: a.lo }),
            0x12 => Some(Reg { lo: a.lo & b.lo, hi: a.hi & b.hi }),
            0x13 => Some(Reg { lo: a.lo ^ b.lo, hi: a.hi ^ b.hi }),
            _ => None,
        }
    } else {
        match n {
            0x0A => Some(Reg { lo: interleave_even_u16(b.lo, a.lo), hi: interleave_even_u16(b.hi, a.hi) }),
            0x0E => Some(Reg { lo: a.hi, hi: b.hi }),
            0x12 => Some(Reg { lo: a.lo | b.lo, hi: a.hi | b.hi }),
            0x13 => Some(Reg { lo: !(a.lo | b.lo), hi: !(a.hi | b.hi) }),
            0x1B => Some(Reg { lo: repeat_u16(b.lo), hi: repeat_u16(b.hi) }),
            _ => None,
        }
    }
}

// --- what instructions do --------------------------------------------------------------

pub open spec fn done(c: CpuModel) -> (CpuModel, Outcome) {
    (c, Outcome::Done)
}

pub open spec fn no_regs() -> Seq<Reg> {
    Seq::new(32, |i: int| Reg { lo: 0, hi: 0 })
}

impl CpuModel {
    /// After reset: at the BIOS entry, every register zero.
    pub open spec fn reset() -> CpuModel {
        CpuModel {
            pc: 0xBFC0_0000,
            next_pc: 0xBFC0_0004,
            gpr: no_regs(),
            hi: Reg { lo: 0, hi: 0 },
            lo: Reg { lo: 0, hi: 0 },
            sa: 0,
            cop0: reset_regs(),
            tlb: no_tlb(),
            fpr: Seq::new(32, |i: int| 0u32),
            acc: 0,
            fcr31: 0x0100_0001,
            condition: false,
            vf: no_regs(),
            vctl: Seq::new(32, |i: int| 0u32),
            delay: false,
            current: 0xBFC0_0000,
            in_delay: false,
            idle: false,
        }
    }

    pub open spec fn r64(self, i: int) -> u64 {
        self.gpr[i].lo
    }

    pub open spec fn r32(self, i: int) -> u32 {
        low32(self.gpr[i].lo)
    }

    pub open spec fn set128(self, i: int, v: Reg) -> CpuModel {
        if i == 0 {
            self
        } else {
            CpuModel { gpr: self.gpr.update(i, v), ..self }
        }
    }

    pub open spec fn set64(self, i: int, v: u64) -> CpuModel {
        self.set128(i, Reg { lo: v, hi: self.gpr[i].hi })
    }

    /// 32-bit result, sign-extended into the low 64 bits.
    pub open spec fn set32(self, i: int, v: u32) -> CpuModel {
        self.set64(i, sext32(v))
    }

    pub open spec fn branched(self, target: u32) -> CpuModel {
        CpuModel { next_pc: target, delay: true, ..self }
    }

    /// Relative branch; `likely` skips the delay slot when not taken.
    pub open spec fn branched_if(self, taken: bool, imm: u32, likely: bool) -> CpuModel {
        if taken {
            self.branched(relative(self.pc, imm))
        } else if likely {
            CpuModel { pc: self.next_pc, next_pc: self.next_pc.wrapping_add(4), ..self }
        } else {
            CpuModel { delay: true, ..self }
        }
    }

    pub open spec fn raised(self, code: u32) -> CpuModel {
        let v = vector(self.cop0[STATUS as int] | STATUS_EXL, code);
        CpuModel {
            cop0: excepted(self.cop0, code, self.current, self.in_delay),
            pc: v,
            next_pc: v.wrapping_add(4),
            delay: false,
            ..self
        }
    }

    /// HI and LO of a pipeline.
    pub open spec fn with_pipe(self, second: bool, v: Reg) -> CpuModel {
        if second {
            CpuModel { lo: Reg { hi: v.lo, ..self.lo }, hi: Reg { hi: v.hi, ..self.hi }, ..self }
        } else {
            CpuModel { lo: Reg { lo: v.lo, ..self.lo }, hi: Reg { lo: v.hi, ..self.hi }, ..self }
        }
    }

    pub open spec fn pipe(self, second: bool) -> Reg {
        if second {
            Reg { lo: self.lo.hi, hi: self.hi.hi }
        } else {
            Reg { lo: self.lo.lo, hi: self.hi.lo }
        }
    }

    /// Multiplications; the R5900 three-operand form: rd receives LO.
    pub open spec fn multiplied(self, second: bool, d: int, v: Reg) -> CpuModel {
        self.with_pipe(second, v).set64(d, v.lo)
    }

    /// SPECIAL.
    #[verifier::opaque]
    pub open spec fn special(self, instr: u32) -> (CpuModel, Outcome) {
        let f = function(instr);
        let (s, t, d) = (rs(instr), rt(instr), rd(instr));
        let (a, b) = (self.r64(s), self.r64(t));
        if special_value(f, a, b, amount(instr)) is Some {
            done(self.set64(d, special_value(f, a, b, amount(instr))->Some_0))
        } else if trap_taken(f, a, b) is Some {
            done(
                if trap_taken(f, a, b)->Some_0 {
                    self.raised(EXC_TRAP)
                } else {
                    self
                },
            )
        } else {
            self.special_state(instr)
        }
    }

    /// SPECIAL instructions on more than the GPRs.
    #[verifier::opaque]
    pub open spec fn special_state(self, instr: u32) -> (CpuModel, Outcome) {
        let f = function(instr);
        let (s, t, d) = (rs(instr), rt(instr), rd(instr));
        match f {
            0x08 => done(self.branched(self.r32(s))),
            0x09 => done(self.set32(d, self.next_pc).branched(self.r32(s))),
            0x0A => done(
                if self.r64(t) == 0 {
                    self.set64(d, self.r64(s))
                } else {
                    self
                },
            ),
            0x0B => done(
                if self.r64(t) != 0 {
                    self.set64(d, self.r64(s))
                } else {
                    self
                },
            ),
            0x0C => done(self.raised(EXC_SYSCALL)),
            0x0D => done(self.raised(EXC_BREAK)),
            0x0F => done(self),
            0x10 => done(self.set64(d, self.hi.lo)),
            0x11 => done(CpuModel { hi: Reg { lo: self.r64(s), ..self.hi }, ..self }),
            0x12 => done(self.set64(d, self.lo.lo)),
            0x13 => done(CpuModel { lo: Reg { lo: self.r64(s), ..self.lo }, ..self }),
            0x18 => done(self.multiplied(false, d, halves(product(self.r32(s), self.r32(t), true)))),
            0x19 => done(self.multiplied(false, d, halves(product(self.r32(s), self.r32(t), false)))),
            0x1A => done(self.with_pipe(false, divided(self.r32(s), self.r32(t), true))),
            0x1B => done(self.with_pipe(false, divided(self.r32(s), self.r32(t), false))),
            0x28 => done(self.set64(d, self.sa as u64)),
            0x29 => done(CpuModel { sa: self.r32(s), ..self }),
            _ => (self, Outcome::Unimplemented),
        }
    }

    /// REGIMM.
    #[verifier::opaque]
    pub open spec fn regimm(self, instr: u32) -> (CpuModel, Outcome) {
        let (s, t) = (rs(instr), rt(instr));
        let imm = immediate(instr);
        let minus = negative(self.r64(s));
        let linked = self.set32(31, self.next_pc);
        if t == 0x00 || t == 0x02 {
            done(self.branched_if(minus, imm, t == 0x02))
        } else if t == 0x01 || t == 0x03 {
            done(self.branched_if(!minus, imm, t == 0x03))
        } else if t == 0x10 || t == 0x12 {
            done(linked.branched_if(negative(linked.r64(s)), imm, t == 0x12))
        } else if t == 0x11 || t == 0x13 {
            done(linked.branched_if(!negative(linked.r64(s)), imm, t == 0x13))
        } else if t == 0x18 {
            done(CpuModel { sa: (((self.r32(s) & 0xF) ^ (imm & 0xF)) * 8) as u32, ..self })
        } else if t == 0x19 {
            done(CpuModel { sa: (((self.r32(s) & 0x7) ^ (imm & 0x7)) * 16) as u32, ..self })
        } else {
            (self, Outcome::Unimplemented)
        }
    }

    /// MMI: the pipelines, counts and lane shifts.
    #[verifier::opaque]
    pub open spec fn mmi(self, instr: u32) -> (CpuModel, Outcome) {
        let f = function(instr);
        let (s, t, d) = (rs(instr), rt(instr), rd(instr));
        let (x, y) = (self.r32(s), self.r32(t));
        let n = amount(instr);
        let (a, b) = (self.gpr[s], self.gpr[t]);
        let p = self.pipe(false);
        let q = self.pipe(true);
        match f {
            0x00 => done(self.multiplied(false, d, accumulated(p.lo, p.hi, x, y, true))),
            0x01 => done(self.multiplied(false, d, accumulated(p.lo, p.hi, x, y, false))),
            0x04 => done(self.set64(d, sign_counts(self.r64(s)))),
            0x08 | 0x28 => self.placed(d, mmi01_value(f == 0x28, n, a, b, self.sa)),
            0x09 => self.placed(d, mmi23_value(false, n, a, b, self.hi, self.lo)),
            0x29 => if n == 0x08 {
                done(CpuModel { hi: a, ..self })
            } else if n == 0x09 {
                done(CpuModel { lo: a, ..self })
            } else {
                self.placed(d, mmi23_value(true, n, a, b, self.hi, self.lo))
            },
            0x10 => done(self.set64(d, self.hi.hi)),
            0x11 => done(CpuModel { hi: Reg { hi: self.r64(s), ..self.hi }, ..self }),
            0x12 => done(self.set64(d, self.lo.hi)),
            0x13 => done(CpuModel { lo: Reg { hi: self.r64(s), ..self.lo }, ..self }),
            0x18 => done(self.multiplied(true, d, halves(product(x, y, true)))),
            0x19 => done(self.multiplied(true, d, halves(product(x, y, false)))),
            0x1A => done(self.with_pipe(true, divided(x, y, true))),
            0x1B => done(self.with_pipe(true, divided(x, y, false))),
            0x20 => done(self.multiplied(true, d, accumulated(q.lo, q.hi, x, y, true))),
            0x21 => done(self.multiplied(true, d, accumulated(q.lo, q.hi, x, y, false))),
            0x34 => done(self.set128(d, shifted_halves(Shift::Left, b, n % 16))),
            0x36 => done(self.set128(d, shifted_halves(Shift::Right, b, n % 16))),
            0x37 => done(self.set128(d, shifted_halves(Shift::Arithmetic, b, n % 16))),
            0x3C => done(self.set128(d, shifted_words(Shift::Left, b, n))),
            0x3E => done(self.set128(d, shifted_words(Shift::Right, b, n))),
            0x3F => done(self.set128(d, shifted_words(Shift::Arithmetic, b, n))),
            _ => (self, Outcome::Unimplemented),
        }
    }

    pub open spec fn placed(self, d: int, v: Option<Reg>) -> (CpuModel, Outcome) {
        match v {
            Some(v) => done(self.set128(d, v)),
            None => (self, Outcome::Unimplemented),
        }
    }
}

impl Cpu {
    pub open spec fn model(&self) -> CpuModel {
        CpuModel {
            pc: self.pc,
            next_pc: self.next_pc,
            gpr: self.gpr@,
            hi: self.hi,
            lo: self.lo,
            sa: self.sa,
            cop0: self.cop0.regs@,
            tlb: self.cop0.tlb@,
            fpr: self.fpu.regs@,
            acc: self.fpu.acc,
            fcr31: self.fpu.fcr31,
            condition: self.fpu.condition,
            vf: self.vu0_vf@,
            vctl: self.vu0_ctrl@,
            delay: self.next_is_delay,
            current: self.current_pc,
            in_delay: self.in_delay,
            idle: self.idle,
        }
    }

    pub open spec fn wf(&self) -> bool {
        &&& self.gpr@.len() == 32
        &&& self.gpr@[0] == (Reg { lo: 0, hi: 0 })
        &&& self.cop0.wf()
        &&& self.fpu.wf()
        &&& self.vu0_vf@.len() == 32
        &&& self.vu0_ctrl@.len() == 32
    }

    pub fn new() -> (c: Self)
        ensures
            c.wf(),
            c.model() == CpuModel::reset(),
    {
        let zero = Reg { lo: 0, hi: 0 };
        let gpr: Vec<Reg> = vec![zero; 32];
        assert(gpr@ =~= no_regs());
        let c = Cpu {
            pc: 0xBFC0_0000,
            next_pc: 0xBFC0_0004,
            gpr,
            hi: zero,
            lo: zero,
            sa: 0,
            cop0: Cop0::new(),
            fpu: Fpu::new(),
            vu0_vf: vec![zero; 32],
            vu0_ctrl: vec![0; 32],
            next_is_delay: false,
            current_pc: 0xBFC0_0000,
            in_delay: false,
            idle: false,
        };
        assert(c.vu0_vf@ =~= no_regs());
        assert(c.vu0_ctrl@ =~= Seq::new(32, |i: int| 0u32));
        c
    }

    // --- register helpers ------------------------------------------------------

    pub(crate) fn r64(&self, i: usize) -> (v: u64)
        requires
            self.wf(),
            i < 32,
        ensures
            v == self.model().r64(i as int),
    {
        self.gpr[i].lo
    }

    pub(crate) fn r32(&self, i: usize) -> (v: u32)
        requires
            self.wf(),
            i < 32,
        ensures
            v == self.model().r32(i as int),
    {
        low32(self.gpr[i].lo)
    }

    pub(crate) fn set128(&mut self, i: usize, v: Reg)
        requires
            old(self).wf(),
            i < 32,
        ensures
            final(self).wf(),
            final(self).model() == old(self).model().set128(i as int, v),
    {
        if i != 0 {
            self.gpr[i] = v;
        }
    }

    pub(crate) fn set64(&mut self, i: usize, v: u64)
        requires
            old(self).wf(),
            i < 32,
        ensures
            final(self).wf(),
            final(self).model() == old(self).model().set64(i as int, v),
    {
        let hi: u64 = self.gpr[i].hi;
        self.set128(i, Reg { lo: v, hi });
    }

    /// 32-bit result, sign-extended into the low 64 bits.
    pub(crate) fn set32(&mut self, i: usize, v: u32)
        requires
            old(self).wf(),
            i < 32,
        ensures
            final(self).wf(),
            final(self).model() == old(self).model().set32(i as int, v),
    {
        self.set64(i, sext32(v));
    }

    // --- control flow ----------------------------------------------------------

    pub(crate) fn branch_to(&mut self, target: u32)
        requires
            old(self).wf(),
        ensures
            final(self).wf(),
            final(self).model() == old(self).model().branched(target),
    {
        self.next_pc = target;
        self.next_is_delay = true;
    }

    /// Relative branch; `likely` skips the delay slot when not taken.
    pub(crate) fn branch_cond(&mut self, taken: bool, imm: u32, likely: bool)
        requires
            old(self).wf(),
            imm < 0x1_0000,
        ensures
            final(self).wf(),
            final(self).model() == old(self).model().branched_if(taken, imm, likely),
    {
        if taken {
            let target: u32 = relative_of(self.pc, imm);
            self.branch_to(target);
        } else if likely {
            self.pc = self.next_pc;
            self.next_pc = self.pc.wrapping_add(4);
        } else {
            self.next_is_delay = true;
        }
    }

    pub(crate) fn exception(&mut self, code: u32)
        requires
            old(self).wf(),
        ensures
            final(self).wf(),
            final(self).model() == old(self).model().raised(code),
    {
        let v: u32 = self.cop0.enter_exception(code, self.current_pc, self.in_delay);
        self.pc = v;
        self.next_pc = v.wrapping_add(4);
        self.next_is_delay = false;
    }

    // --- multiply / divide -----------------------------------------------------

    fn set_pipe(&mut self, second: bool, v: Reg)
        requires
            old(self).wf(),
        ensures
            final(self).wf(),
            final(self).model() == old(self).model().with_pipe(second, v),
    {
        if second {
            self.lo.hi = v.lo;
            self.hi.hi = v.hi;
        } else {
            self.lo.lo = v.lo;
            self.hi.lo = v.hi;
        }
    }

    fn mult(&mut self, second: bool, d: usize, s: usize, t: usize, signed: bool)
        requires
            old(self).wf(),
            d < 32,
            s < 32,
            t < 32,
        ensures
            final(self).wf(),
            ({
                let m = old(self).model();
                final(self).model() == m.multiplied(
                    second,
                    d as int,
                    halves(product(m.r32(s as int), m.r32(t as int), signed)),
                )
            }),
    {
        let v = mult(self.r32(s), self.r32(t), signed);
        self.set_pipe(second, v);
        self.set64(d, v.lo);
    }

    fn div(&mut self, second: bool, s: usize, t: usize, signed: bool)
        requires
            old(self).wf(),
            s < 32,
            t < 32,
        ensures
            final(self).wf(),
            ({
                let m = old(self).model();
                final(self).model() == m.with_pipe(second, divided(m.r32(s as int), m.r32(t as int), signed))
            }),
    {
        let v = divide(self.r32(s), self.r32(t), signed);
        self.set_pipe(second, v);
    }

    fn madd(&mut self, second: bool, d: usize, s: usize, t: usize, signed: bool)
        requires
            old(self).wf(),
            d < 32,
            s < 32,
            t < 32,
        ensures
            final(self).wf(),
            ({
                let m = old(self).model();
                let p = m.pipe(second);
                final(self).model() == m.multiplied(
                    second,
                    d as int,
                    accumulated(p.lo, p.hi, m.r32(s as int), m.r32(t as int), signed),
                )
            }),
    {
        let (lo, hi): (u64, u64) = if second { (self.lo.hi, self.hi.hi) } else { (self.lo.lo, self.hi.lo) };
        let v = madd(lo, hi, self.r32(s), self.r32(t), signed);
        self.set_pipe(second, v);
        self.set64(d, v.lo);
    }

    // --- SPECIAL ---------------------------------------------------------------

    pub(crate) fn op_special(&mut self, instr: u32) -> (r: Outcome)
        requires
            old(self).wf(),
        ensures
            final(self).wf(),
            (final(self).model(), r) == old(self).model().special(instr),
    {
        proof {
            reveal(CpuModel::special);
        }
        let f: u32 = instr % 64;
        let (s, t, d): (usize, usize, usize) = fields(instr);
        let (a, b): (u64, u64) = (self.r64(s), self.r64(t));
        if let Some(v) = special_of(f, a, b, instr / 64 % 32) {
            self.set64(d, v);
            Outcome::Done
        } else if let Some(taken) = trap_of(f, a, b) {
            if taken {
                self.exception(EXC_TRAP);
            }
            Outcome::Done
        } else {
            self.op_special_state(instr)
        }
    }

    #[verifier::rlimit(50)]
    fn op_special_state(&mut self, instr: u32) -> (r: Outcome)
        requires
            old(self).wf(),
        ensures
            final(self).wf(),
            (final(self).model(), r) == old(self).model().special_state(instr),
    {
        proof {
            reveal(CpuModel::special_state);
        }
        let (s, t, d): (usize, usize, usize) = fields(instr);
        match instr % 64 {
            0x08 => {
                let target: u32 = self.r32(s);
                self.branch_to(target);
            },
            0x09 => {
                let target: u32 = self.r32(s);
                self.set32(d, self.next_pc);
                self.branch_to(target);
            },
            0x0A => {
                if self.r64(t) == 0 {
                    let v: u64 = self.r64(s);
                    self.set64(d, v);
                }
            },
            0x0B => {
                if self.r64(t) != 0 {
                    let v: u64 = self.r64(s);
                    self.set64(d, v);
                }
            },
            0x0C => self.exception(EXC_SYSCALL),
            0x0D => self.exception(EXC_BREAK),
            0x0F => {},
            0x10 => self.set64(d, self.hi.lo),
            0x11 => self.hi.lo = self.r64(s),
            0x12 => self.set64(d, self.lo.lo),
            0x13 => self.lo.lo = self.r64(s),
            0x18 => self.mult(false, d, s, t, true),
            0x19 => self.mult(false, d, s, t, false),
            0x1A => self.div(false, s, t, true),
            0x1B => self.div(false, s, t, false),
            0x28 => self.set64(d, self.sa as u64),
            0x29 => self.sa = self.r32(s),
            _ => {
                return Outcome::Unimplemented;
            },
        }
        Outcome::Done
    }

    pub(crate) fn op_regimm(&mut self, instr: u32) -> (r: Outcome)
        requires
            old(self).wf(),
        ensures
            final(self).wf(),
            (final(self).model(), r) == old(self).model().regimm(instr),
    {
        proof {
            reveal(CpuModel::regimm);
        }
        let (s, t, d): (usize, usize, usize) = fields(instr);
        let imm: u32 = instr % 0x1_0000;
        match t {
            0x00 | 0x02 => {
                let taken = negative(self.r64(s));
                self.branch_cond(taken, imm, t == 0x02);
            },
            0x01 | 0x03 => {
                let taken = !negative(self.r64(s));
                self.branch_cond(taken, imm, t == 0x03);
            },
            0x10 | 0x12 => {
                self.set32(31, self.next_pc);
                let taken = negative(self.r64(s));
                self.branch_cond(taken, imm, t == 0x12);
            },
            0x11 | 0x13 => {
                self.set32(31, self.next_pc);
                let taken = !negative(self.r64(s));
                self.branch_cond(taken, imm, t == 0x13);
            },
            0x18 => self.sa = byte_shift(self.r32(s), imm),
            0x19 => self.sa = half_shift(self.r32(s), imm),
            _ => {
                return Outcome::Unimplemented;
            },
        }
        Outcome::Done
    }

    // --- MMI -------------------------------------------------------------------

    fn place(&mut self, d: usize, v: Option<Reg>) -> (r: Outcome)
        requires
            old(self).wf(),
            d < 32,
        ensures
            final(self).wf(),
            (final(self).model(), r) == old(self).model().placed(d as int, v),
    {
        match v {
            Some(v) => {
                self.set128(d, v);
                Outcome::Done
            },
            None => Outcome::Unimplemented,
        }
    }

    #[verifier::rlimit(80)]
    pub(crate) fn op_mmi(&mut self, instr: u32) -> (r: Outcome)
        requires
            old(self).wf(),
        ensures
            final(self).wf(),
            (final(self).model(), r) == old(self).model().mmi(instr),
    {
        proof {
            reveal(CpuModel::mmi);
        }
        let (s, t, d): (usize, usize, usize) = fields(instr);
        let n: u32 = instr / 64 % 32;
        let (a, b) = (self.gpr[s], self.gpr[t]);
        match instr % 64 {
            0x00 => self.madd(false, d, s, t, true),
            0x01 => self.madd(false, d, s, t, false),
            0x04 => self.set64(d, count_signs(a.lo)),
            0x08 => {
                return self.place(d, mmi01_of(false, n, a, b, self.sa));
            },
            0x28 => {
                return self.place(d, mmi01_of(true, n, a, b, self.sa));
            },
            0x09 => {
                return self.place(d, mmi23_of(false, n, a, b, self.hi, self.lo));
            },
            0x29 => {
                if n == 0x08 {
                    self.hi = a;
                } else if n == 0x09 {
                    self.lo = a;
                } else {
                    return self.place(d, mmi23_of(true, n, a, b, self.hi, self.lo));
                }
            },
            0x10 => self.set64(d, self.hi.hi),
            0x11 => self.hi.hi = a.lo,
            0x12 => self.set64(d, self.lo.hi),
            0x13 => self.lo.hi = a.lo,
            0x18 => self.mult(true, d, s, t, true),
            0x19 => self.mult(true, d, s, t, false),
            0x1A => self.div(true, s, t, true),
            0x1B => self.div(true, s, t, false),
            0x20 => self.madd(true, d, s, t, true),
            0x21 => self.madd(true, d, s, t, false),
            0x34 => self.set128(d, shift_halves(Shift::Left, b, n % 16)),
            0x36 => self.set128(d, shift_halves(Shift::Right, b, n % 16)),
            0x37 => self.set128(d, shift_halves(Shift::Arithmetic, b, n % 16)),
            0x3C => self.set128(d, shift_words(Shift::Left, b, n)),
            0x3E => self.set128(d, shift_words(Shift::Right, b, n)),
            0x3F => self.set128(d, shift_words(Shift::Arithmetic, b, n)),
            _ => {
                return Outcome::Unimplemented;
            },
        }
        Outcome::Done
    }
}

/// rs, rt and rd.
pub(crate) fn fields(instr: u32) -> (r: (usize, usize, usize))
    ensures
        r.0 == rs(instr),
        r.1 == rt(instr),
        r.2 == rd(instr),
        r.0 < 32,
        r.1 < 32,
        r.2 < 32,
{
    ((instr / 0x20_0000 % 32) as usize, (instr / 0x1_0000 % 32) as usize, (instr / 0x800 % 32) as usize)
}

/// mtsab.
fn byte_shift(a: u32, imm: u32) -> (r: u32)
    ensures
        r == ((a & 0xF) ^ (imm & 0xF)) * 8,
{
    let x: u32 = (a & 0xF) ^ (imm & 0xF);
    assert(x <= 15) by (bit_vector)
        requires
            x == (a & 0xF) ^ (imm & 0xF),
    ;
    x * 8
}

/// mtsah.
fn half_shift(a: u32, imm: u32) -> (r: u32)
    ensures
        r == ((a & 0x7) ^ (imm & 0x7)) * 16,
{
    let x: u32 = (a & 0x7) ^ (imm & 0x7);
    assert(x <= 7) by (bit_vector)
        requires
            x == (a & 0x7) ^ (imm & 0x7),
    ;
    x * 16
}

impl Default for Cpu {
    fn default() -> (c: Self)
        ensures
            c.wf(),
            c.model() == CpuModel::reset(),
    {
        Cpu::new()
    }
}

} // verus!
