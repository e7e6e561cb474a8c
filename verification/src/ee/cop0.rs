//! EE System Control Coprocessor (COP0): exception state, TLB bookkeeping.

use vstd::prelude::*;
use crate::bus::tlb::TlbEntry;

verus! {

pub const STATUS: usize = 12;

pub const CAUSE: usize = 13;

pub const EPC: usize = 14;

pub const PRID: usize = 15;

pub const CONFIG: usize = 16;

pub const ERROR_EPC: usize = 30;

pub const STATUS_EXL: u32 = 2;

pub const STATUS_ERL: u32 = 4;

pub const STATUS_BEV: u32 = 0x40_0000;

pub const STATUS_EIE: u32 = 0x1_0000;

pub struct Cop0 {
    pub regs: Vec<u32>,
    /// The recorded TLB entries.
    pub tlb: Vec<TlbEntry>,
}

/// The live INT0/INT1 lines as Cause.IP2/IP3.
pub open spec fn lines(int0: bool, int1: bool) -> u32 {
    (if int0 {
        0x400u32
    } else {
        0u32
    }) | (if int1 {
        0x800u32
    } else {
        0u32
    })
}

/// What a register reads as.
pub open spec fn cop0_value(regs: Seq<u32>, reg: int, cycles: u64, int0: bool, int1: bool) -> u32 {
    if reg == 9 {
        // Count follows the CPU cycle counter.
        (cycles % 0x1_0000_0000) as u32
    } else if reg == CAUSE {
        regs[CAUSE as int] | lines(int0, int1)
    } else {
        regs[reg]
    }
}

/// The registers after a write: PRId is read-only, and of Cause only the
/// software interrupt bits are writable.
pub open spec fn cop0_written(regs: Seq<u32>, reg: int, v: u32) -> Seq<u32> {
    if reg == PRID {
        regs
    } else if reg == CAUSE {
        regs.update(reg, (regs[reg] & !0x300u32) | (v & 0x300))
    } else {
        regs.update(reg, v)
    }
}

/// The registers after entering an exception. ExcCode and BD are rewritten;
/// the software IP0/IP1 bits persist.
pub open spec fn excepted(regs: Seq<u32>, code: u32, pc: u32, in_delay_slot: bool) -> Seq<u32> {
    let cause = (regs[CAUSE as int] & 0x300) | ((code & 0x1F) << 2);
    regs.update(
        CAUSE as int,
        if in_delay_slot {
            cause | 0x8000_0000
        } else {
            cause
        },
    ).update(
        EPC as int,
        if in_delay_slot {
            pc.wrapping_sub(4)
        } else {
            pc
        },
    ).update(STATUS as int, regs[STATUS as int] | STATUS_EXL)
}

/// Where an exception is handled: the boot vectors while BEV is set, and a
/// vector of its own for interrupts.
pub open spec fn vector(status: u32, code: u32) -> u32 {
    let base: u32 = if status & STATUS_BEV != 0 {
        0xBFC0_0200
    } else {
        0x8000_0000
    };
    if code == 0 {
        (base + 0x200) as u32
    } else {
        (base + 0x180) as u32
    }
}

/// Whether an interrupt is taken: IE and EIE set, EXL and ERL clear, and an
/// unmasked line up.
pub open spec fn interrupted(regs: Seq<u32>, int0: bool, int1: bool) -> bool {
    let ip = lines(int0, int1) | (regs[CAUSE as int] & 0x300);
    let status = regs[STATUS as int];
    ip != 0 && status & 1 != 0 && status & STATUS_EIE != 0 && status & 6 == 0 && (status >> 8) & (ip >> 8) & 0xFF != 0
}

/// The registers after ERET, and where it returns to. ERL selects ErrorEPC;
/// otherwise EPC is used even with EXL clear: the kernel's LoadExecPS2 path
/// erets to EELOAD with neither bit set and relies on this.
pub open spec fn returned(regs: Seq<u32>) -> (Seq<u32>, u32) {
    let status = regs[STATUS as int];
    if status & STATUS_ERL != 0 {
        (regs.update(STATUS as int, status & !STATUS_ERL), regs[ERROR_EPC as int])
    } else {
        (regs.update(STATUS as int, status & !STATUS_EXL), regs[EPC as int])
    }
}

/// The entry that tlbwi writes, from the registers.
pub open spec fn indexed_entry(regs: Seq<u32>) -> TlbEntry {
    TlbEntry { mask: regs[5], hi: regs[10], lo0: regs[2], lo1: regs[3] }
}

/// The registers after reset: BEV and ERL set, as on real hardware.
pub open spec fn reset_regs() -> Seq<u32> {
    Seq::new(
        32,
        |i: int|
            if i == STATUS {
                0x40_0004u32
            } else if i == PRID {
                0x2E20u32
            } else if i == CONFIG {
                0x440u32
            } else {
                0u32
            },
    )
}

/// A TLB that nothing was written to.
pub open spec fn no_tlb() -> Seq<TlbEntry> {
    Seq::new(48, |i: int| TlbEntry { mask: 0, hi: 0, lo0: 0, lo1: 0 })
}

impl Cop0 {
    pub open spec fn wf(&self) -> bool {
        self.regs@.len() == 32 && self.tlb@.len() == 48
    }

    /// Reset state: BEV and ERL set, as on real hardware.
    pub fn new() -> (c: Self)
        ensures
            c.wf(),
            c.regs@ == reset_regs(),
            c.tlb@ == no_tlb(),
    {
        let mut regs: Vec<u32> = vec![0; 32];
        regs[STATUS] = 0x40_0004;
        regs[PRID] = 0x2E20;
        regs[CONFIG] = 0x440;
        assert(regs@ =~= reset_regs());
        let tlb: Vec<TlbEntry> = vec![TlbEntry { mask: 0, hi: 0, lo0: 0, lo1: 0 }; 48];
        assert(tlb@ =~= no_tlb());
        Cop0 { regs, tlb }
    }

    /// Register read; `int0`/`int1` are the live INT0/INT1 lines merged into
    /// Cause.IP2/IP3 (they are not stored, see [`Cop0::interrupt_pending`]).
    pub fn read(&self, reg: usize, cycles: u64, int0: bool, int1: bool) -> (v: u32)
        requires
            self.wf(),
            reg < 32,
        ensures
            v == cop0_value(self.regs@, reg as int, cycles, int0, int1),
    {
        if reg == 9 {
            (cycles % 0x1_0000_0000) as u32
        } else if reg == CAUSE {
            self.regs[CAUSE] | (if int0 { 0x400u32 } else { 0u32 } | if int1 { 0x800u32 } else { 0u32 })
        } else {
            self.regs[reg]
        }
    }

    pub fn write(&mut self, reg: usize, v: u32)
        requires
            old(self).wf(),
            reg < 32,
        ensures
            final(self).wf(),
            final(self).regs@ == cop0_written(old(self).regs@, reg as int, v),
            final(self).tlb == old(self).tlb,
    {
        if reg == CAUSE {
            self.regs[CAUSE] = (self.regs[CAUSE] & !0x300u32) | (v & 0x300);
        } else if reg != PRID {
            self.regs[reg] = v;
        }
    }

    /// Record the indexed TLB entry (tlbwi).
    pub fn tlb_write_indexed(&mut self)
        requires
            old(self).wf(),
        ensures
            final(self).wf(),
            final(self).regs == old(self).regs,
            ({
                let idx = old(self).regs@[0] % 64;
                final(self).tlb@ == (if idx < 48 {
                    old(self).tlb@.update(idx as int, indexed_entry(old(self).regs@))
                } else {
                    old(self).tlb@
                })
            }),
    {
        let idx: usize = (self.regs[0] % 64) as usize;
        if idx < 48 {
            let e = TlbEntry { mask: self.regs[5], hi: self.regs[10], lo0: self.regs[2], lo1: self.regs[3] };
            self.tlb[idx] = e;
        }
    }

    pub fn status(&self) -> (s: u32)
        requires
            self.wf(),
        ensures
            s == self.regs@[STATUS as int],
    {
        self.regs[STATUS]
    }

    /// Enter a general exception; returns the handler vector address.
    pub fn enter_exception(&mut self, code: u32, pc: u32, in_delay_slot: bool) -> (v: u32)
        requires
            old(self).wf(),
        ensures
            final(self).wf(),
            final(self).regs@ == excepted(old(self).regs@, code, pc, in_delay_slot),
            v == vector(old(self).regs@[STATUS as int] | STATUS_EXL, code),
            final(self).tlb == old(self).tlb,
    {
        let cause: u32 = (self.regs[CAUSE] & 0x300) | ((code & 0x1F) << 2);
        if in_delay_slot {
            self.regs[CAUSE] = cause | 0x8000_0000;
            self.regs[EPC] = pc.wrapping_sub(4);
        } else {
            self.regs[CAUSE] = cause;
            self.regs[EPC] = pc;
        }
        self.regs[STATUS] = self.regs[STATUS] | STATUS_EXL;
        let base: u32 = if self.regs[STATUS] & STATUS_BEV != 0 { 0xBFC0_0200 } else { 0x8000_0000 };
        if code == 0 {
            base + 0x200
        } else {
            base + 0x180
        }
    }

    /// Whether an interrupt should be taken given the live INT0/INT1 lines
    /// (level triggered, merged into Cause.IP2/IP3 on read rather than
    /// stored).
    pub fn interrupt_pending(&self, int0: bool, int1: bool) -> (r: bool)
        requires
            self.wf(),
        ensures
            r == interrupted(self.regs@, int0, int1),
    {
        let ip: u32 = (if int0 { 0x400u32 } else { 0u32 } | if int1 { 0x800u32 } else { 0u32 }) | (self.regs[CAUSE] & 0x300);
        if ip == 0 {
            return false;
        }
        let status: u32 = self.regs[STATUS];
        if status & 1 == 0 || status & STATUS_EIE == 0 || status & 6 != 0 {
            return false;
        }
        (status >> 8) & (ip >> 8) & 0xFF != 0
    }

    /// ERET: return address.
    pub fn eret(&mut self) -> (to: u32)
        requires
            old(self).wf(),
        ensures
            final(self).wf(),
            final(self).regs@ == returned(old(self).regs@).0,
            to == returned(old(self).regs@).1,
            final(self).tlb == old(self).tlb,
    {
        let status: u32 = self.regs[STATUS];
        if status & STATUS_ERL != 0 {
            self.regs[STATUS] = status & !STATUS_ERL;
            self.regs[ERROR_EPC]
        } else {
            self.regs[STATUS] = status & !STATUS_EXL;
            self.regs[EPC]
        }
    }

    pub fn set_eie(&mut self, enable: bool)
        requires
            old(self).wf(),
        ensures
            final(self).wf(),
            final(self).regs@ == old(self).regs@.update(
                STATUS as int,
                if enable {
                    old(self).regs@[STATUS as int] | STATUS_EIE
                } else {
                    old(self).regs@[STATUS as int] & !STATUS_EIE
                },
            ),
            final(self).tlb == old(self).tlb,
    {
        if enable {
            self.regs[STATUS] = self.regs[STATUS] | STATUS_EIE;
        } else {
            self.regs[STATUS] = self.regs[STATUS] & !STATUS_EIE;
        }
    }
}

impl Default for Cop0 {
    fn default() -> (c: Self)
        ensures
            c.wf(),
            c.regs@ == reset_regs(),
            c.tlb@ == no_tlb(),
    {
        Cop0::new()
    }
}

/// ERET undoes the entry into an exception that was taken outside any other:
/// it returns to the interrupted instruction, or to the branch where that
/// instruction stood in its delay slot, with the status as it was. The
/// cause says which of the two.
pub proof fn law_eret_undoes_exception(regs: Seq<u32>, code: u32, pc: u32, slot: bool)
    requires
        regs.len() == 32,
        regs[STATUS as int] & 6 == 0,
    ensures
        ({
            let taken = excepted(regs, code, pc, slot);
            let (after, to) = returned(taken);
            &&& to == (if slot {
                pc.wrapping_sub(4)
            } else {
                pc
            })
            &&& slot == (taken[CAUSE as int] & 0x8000_0000 != 0)
            &&& after[STATUS as int] == regs[STATUS as int]
        }),
{
    let s = regs[STATUS as int];
    assert((s | 2) & 4 == 0 && ((s | 2) & !2u32) == s) by (bit_vector)
        requires
            s & 6 == 0,
    ;
    let c = regs[CAUSE as int];
    assert(((c & 0x300) | ((code & 0x1F) << 2)) & 0x8000_0000 == 0 && (((c & 0x300) | ((code & 0x1F) << 2)) | 0x8000_0000)
        & 0x8000_0000 != 0) by (bit_vector);
}

/// No interrupt is taken inside an exception, whatever the lines say.
pub proof fn law_exceptions_mask_interrupts(regs: Seq<u32>, code: u32, pc: u32, slot: bool, int0: bool, int1: bool)
    requires
        regs.len() == 32,
    ensures
        !interrupted(excepted(regs, code, pc, slot), int0, int1),
{
    let s = regs[STATUS as int];
    assert((s | 2) & 6 != 0) by (bit_vector);
}

} // verus!
