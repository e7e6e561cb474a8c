//! EE COP1: the single-precision FPU's registers. Values are kept as bit
//! patterns; what the arithmetic itself gives comes from the host.
//!
//! The real FPU is not IEEE 754 compliant (no NaN/Inf, flush-to-zero,
//! different rounding). Results are clamped away from NaN/Inf where it
//! matters.

use vstd::prelude::*;

verus! {

pub struct Fpu {
    pub regs: Vec<u32>,
    pub acc: u32,
    /// FCR31 control/status register.
    pub fcr31: u32,
    /// Result of the last c.cond.s comparison (FCR31 bit 23).
    pub condition: bool,
}

pub const CONDITION_BIT: u32 = 0x80_0000;

/// The magnitude of infinity; above it are the NaNs.
pub const INFINITY: u32 = 0x7F80_0000;

/// What a control register reads as: FCR0 is the revision, FCR31 carries
/// the condition bit.
pub open spec fn control_value(fcr31: u32, condition: bool, reg: int) -> u32 {
    if reg == 0 {
        0x2E30
    } else if reg == 31 {
        (fcr31 & !CONDITION_BIT) | (if condition {
            CONDITION_BIT
        } else {
            0u32
        })
    } else {
        0
    }
}

/// A result with NaN and infinities clamped away, mimicking the hardware's
/// lack of them: NaN gives zero, an infinity the largest magnitude of its
/// sign.
pub open spec fn clamped(v: u32) -> u32 {
    let magnitude = v % 0x8000_0000;
    if magnitude > INFINITY {
        0
    } else if magnitude == INFINITY {
        (v - 1) as u32
    } else {
        v
    }
}

impl Fpu {
    pub open spec fn wf(&self) -> bool {
        self.regs@.len() == 32
    }

    pub fn new() -> (f: Self)
        ensures
            f.wf(),
            f.regs@ == Seq::new(32, |i: int| 0u32),
            f.acc == 0,
            f.fcr31 == 0x0100_0001,
            !f.condition,
    {
        let regs: Vec<u32> = vec![0; 32];
        assert(regs@ =~= Seq::new(32, |i: int| 0u32));
        Fpu { regs, acc: 0, fcr31: 0x0100_0001, condition: false }
    }

    pub fn read_control(&self, reg: usize) -> (v: u32)
        ensures
            v == control_value(self.fcr31, self.condition, reg as int),
    {
        match reg {
            0 => 0x2E30,
            31 => (self.fcr31 & !CONDITION_BIT) | if self.condition { CONDITION_BIT } else { 0u32 },
            _ => 0,
        }
    }

    pub fn write_control(&mut self, reg: usize, v: u32)
        ensures
            *final(self) == (if reg == 31 {
                Fpu { fcr31: v, condition: v & CONDITION_BIT != 0, ..*old(self) }
            } else {
                *old(self)
            }),
    {
        if reg == 31 {
            self.fcr31 = v;
            self.condition = v & CONDITION_BIT != 0;
        }
    }

    /// Clamp away NaN/Inf.
    pub fn clamp(v: u32) -> (r: u32)
        ensures
            r == clamped(v),
    {
        let magnitude: u32 = v % 0x8000_0000;
        if magnitude > INFINITY {
            0
        } else if magnitude == INFINITY {
            v - 1
        } else {
            v
        }
    }
}

impl Default for Fpu {
    fn default() -> (f: Self)
        ensures
            f.wf(),
            f.regs@ == Seq::new(32, |i: int| 0u32),
            f.acc == 0,
            f.fcr31 == 0x0100_0001,
            !f.condition,
    {
        Fpu::new()
    }
}

/// A clamped value is neither NaN nor infinite, keeps its sign unless it
/// was NaN, and clamping it again changes nothing.
pub proof fn law_clamp_is_finite(v: u32)
    ensures
        clamped(v) % 0x8000_0000 < INFINITY,
        v % 0x8000_0000 <= INFINITY ==> (clamped(v) >= 0x8000_0000) == (v >= 0x8000_0000),
        clamped(clamped(v)) == clamped(v),
{
}

/// FCR31 reads back as it was written.
pub proof fn law_control_reads_back(v: u32)
    ensures
        control_value(v, v & CONDITION_BIT != 0, 31) == v,
{
    assert(((v & !0x80_0000u32) | (if v & 0x80_0000 != 0 {
        0x80_0000u32
    } else {
        0u32
    })) == v) by (bit_vector);
}

} // verus!
