//! Exceptions, interrupts and the return from them.

use vstd::prelude::*;
use super::cop0::{cop0_value, cop0_written, excepted, indexed_entry, interrupted, returned, vector};

verus! {

proof fn lemma_status_bits(s: u32, c: u32, code: u32, w: u32)
    by (bit_vector)
    ensures
        (((c & 0x300) | ((code & 0x1F) << 2)) / 4) % 32 == code % 32,
        (((c & 0x300) | ((code & 0x1F) << 2)) / 0x100) % 4 == (c / 0x100) % 4,
        ((c & 0x300) | ((code & 0x1F) << 2)) / 0x8000_0000 == 0,
        ((((c & 0x300) | ((code & 0x1F) << 2)) | 0x8000_0000) / 4) % 32 == code % 32,
        ((((c & 0x300) | ((code & 0x1F) << 2)) | 0x8000_0000) / 0x100) % 4 == (c / 0x100) % 4,
        (((c & 0x300) | ((code & 0x1F) << 2)) | 0x8000_0000) / 0x8000_0000 == 1,
        (s | 2) / 2 % 2 == 1,
        s / 2 % 2 == 0 ==> (s | 2) & !2u32 == s,
        (s | 2) & 4 == s & 4,
        s & 4 != 0 <==> s / 4 % 2 == 1,
        s & 0x40_0000 != 0 <==> s / 0x40_0000 % 2 == 1,
        (s | 2) & 0x40_0000 == s & 0x40_0000,
        s / 4 % 2 == 1 ==> (s & !4u32) / 4 % 2 == 0,
        s & 1 != 0 <==> s % 2 == 1,
        s & 0x1_0000 != 0 <==> s / 0x1_0000 % 2 == 1,
        s & 6 == 0 <==> s / 2 % 4 == 0,
        (0x400u32 | 0u32) | (c & 0x300) != 0,
        c & 0x300 == 0 <==> c / 0x100 % 4 == 0,
        c & 0x300 == 0 ==> ((s >> 8) & (((0x400u32 | 0u32) | (c & 0x300)) >> 8) & 0xFF != 0 <==> s / 0x400 % 2 == 1),
        c & 0x300 == 0 ==> ((s >> 8) & (((0u32 | 0x800u32) | (c & 0x300)) >> 8) & 0xFF != 0 <==> s / 0x800 % 2 == 1),
        c & 0x300 == 0 ==> (0u32 | 0u32) | (c & 0x300) == 0,
        c & 0x300 == 0 ==> (0u32 | 0x800u32) | (c & 0x300) != 0,
        (c & !0x300u32) | (w & 0x300) == c - c / 0x100 % 4 * 0x100 + w / 0x100 % 4 * 0x100,
{
}

/// Entering an exception puts its code into bits 2-6 of Cause, keeps the
/// software interrupts in bits 8-9, says in bit 31 whether a delay slot was
/// hit, and saves where to go on: the instruction, or the branch before its
/// delay slot. It raises EXL (bit 1 of Status).
pub proof fn law_exceptions(regs: Seq<u32>, code: u32, pc: u32, slot: bool)
    requires
        regs.len() == 32,
        pc >= 4,
    ensures
        ({
            let r = excepted(regs, code, pc, slot);
            let cause = r[13] as int;
            &&& cause / 4 % 32 == code as int % 32
            &&& cause / 0x100 % 4 == regs[13] as int / 0x100 % 4
            &&& cause / 0x8000_0000 == (if slot {
                1int
            } else {
                0int
            })
            &&& slot ==> r[14] == pc - 4
            &&& !slot ==> r[14] == pc
            &&& r[12] as int / 2 % 2 == 1
            &&& forall|i: int| 0 <= i < 32 && i != 12 && i != 13 && i != 14 ==> #[trigger] r[i] == regs[i]
        }),
{
    lemma_status_bits(regs[12], regs[13], code, 0);
}

/// ERET undoes an exception: Status is as before it and the program goes on
/// where it was interrupted. With ERL (bit 2) set it returns to ErrorEPC
/// instead and clears that bit.
pub proof fn law_eret_undoes(regs: Seq<u32>, code: u32, pc: u32)
    requires
        regs.len() == 32,
    ensures
        regs[12] as int / 2 % 4 == 0 ==> returned(excepted(regs, code, pc, false)).0[12] == regs[12],
        regs[12] as int / 2 % 4 == 0 ==> returned(excepted(regs, code, pc, false)).1 == pc,
        regs[12] as int / 4 % 2 == 1 ==> returned(regs).1 == regs[30] && returned(regs).0[12] as int / 4 % 2 == 0,
        regs[12] as int / 4 % 2 == 0 ==> returned(regs).1 == regs[14],
{
    lemma_status_bits(regs[12], regs[13], code, 0);
}

/// Interrupts (code 0) enter 0x200 and everything else 0x180 above the
/// exception base, which is in ROM while BEV (bit 22 of Status) is set.
pub proof fn law_vectors(status: u32, code: u32)
    ensures
        vector(status, 0) == vector(status, 1) + 0x80,
        code != 0 ==> vector(status, code) == vector(status, 1),
        status as int / 0x40_0000 % 2 == 1 ==> vector(status, 1) == 0xBFC0_0380,
        status as int / 0x40_0000 % 2 == 0 ==> vector(status, 1) == 0x8000_0180,
{
    lemma_status_bits(status, 0, code, 0);
}

/// With no software interrupt pending, an interrupt is taken when its line
/// is up, its mask bit is set (bit 10 for INT0, 11 for INT1), IE and EIE
/// (bits 0 and 16) are set, and EXL and ERL (bits 1 and 2) are clear; and
/// none without a line.
pub proof fn law_interrupts(regs: Seq<u32>)
    requires
        regs.len() == 32,
        regs[13] as int / 0x100 % 4 == 0,
    ensures
        ({
            let s = regs[12] as int;
            let open = s % 2 == 1 && s / 0x1_0000 % 2 == 1 && s / 2 % 4 == 0;
            &&& interrupted(regs, true, false) <==> open && s / 0x400 % 2 == 1
            &&& interrupted(regs, false, true) <==> open && s / 0x800 % 2 == 1
            &&& !interrupted(regs, false, false)
        }),
{
    lemma_status_bits(regs[12], regs[13], 0, 0);
}

/// Writes to COP0 are read back, but for PRId, which does not change, and
/// Cause, of which only bits 8-9 do. Count (9) reads as the cycle counter.
pub proof fn law_cop0_reads_back(regs: Seq<u32>, reg: int, v: u32, cycles: u64, int0: bool, int1: bool)
    requires
        regs.len() == 32,
        0 <= reg < 32,
    ensures
        ({
            let w = cop0_written(regs, reg, v);
            &&& reg != 9 && reg != 13 && reg != 15 ==> cop0_value(w, reg, cycles, int0, int1) == v
            &&& reg == 15 ==> w == regs
            &&& reg == 13 ==> w[13] as int / 0x100 % 4 == v as int / 0x100 % 4
            &&& reg == 13 ==> w[13] as int % 0x100 == regs[13] as int % 0x100 && w[13] as int / 0x400 == regs[13] as int
                / 0x400
            &&& cop0_value(regs, 9, cycles, int0, int1) == cycles as int % 0x1_0000_0000
            &&& forall|i: int| 0 <= i < 32 && i != reg ==> #[trigger] w[i] == regs[i]
        }),
{
    lemma_status_bits(0, regs[13], 0, v);
}

/// The TLB entry that tlbwi writes: PageMask (5), EntryHi (10), EntryLo0 (2)
/// and EntryLo1 (3).
pub proof fn law_indexed_entry(regs: Seq<u32>)
    ensures
        indexed_entry(regs).mask == regs[5] && indexed_entry(regs).hi == regs[10],
        indexed_entry(regs).lo0 == regs[2] && indexed_entry(regs).lo1 == regs[3],
{
}

} // verus!
