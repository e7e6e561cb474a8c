//! Dual-issue cost model for the R5900.
//!
//! The EE retires up to two instructions per cycle; charging one cycle per
//! instruction would make fixed CPU delay loops run about twice as long.
//!
//! The model is deliberately conservative and position-based so a block
//! boundary can never split a couple that stepping would pair:
//! - only the 8-byte-aligned couple (addr % 8 == 0 with addr % 8 == 4),
//!   executed back to back, may pair: alignment and sequencing (no delay
//!   slot, no intervening control flow) are the caller's responsibility;
//! - the halves are simple ALU ops (shift, add/sub, logic, slt, lui, nop),
//!   at most one of them a load/store (one LS pipe), and the second may be
//!   a branch or jump (branch pipe; its delay slot then costs 1 as usual);
//! - no RAW or WAW hazard between the halves;
//! - the first half never diverts control: branches lead nothing, and the
//!   trapping add forms, mult/div, MMI, 128-bit lq/sq and all coprocessor
//!   ops never pair at all.

use vstd::prelude::*;

verus! {

/// Primary opcode.
pub open spec fn op(instr: u32) -> int {
    instr as int / 0x400_0000
}

/// SPECIAL function.
pub open spec fn funct(instr: u32) -> int {
    instr as int % 64
}

pub open spec fn rs(instr: u32) -> int {
    instr as int / 0x20_0000 % 32
}

pub open spec fn rt(instr: u32) -> int {
    instr as int / 0x1_0000 % 32
}

pub open spec fn rd(instr: u32) -> int {
    instr as int / 0x800 % 32
}

/// Register/memory use of one pairable instruction.
#[derive(Clone, Copy)]
pub struct Use {
    /// Reads the register that `rs` names.
    pub reads_rs: bool,
    /// Reads the register that `rt` names.
    pub reads_rt: bool,
    /// GPR written (0 = none; writes to $zero are no-ops anyway).
    pub write: u32,
    /// Touches memory (one load/store per cycle).
    pub mem: bool,
    /// Branch or jump: may only be the second half of a couple.
    pub branch: bool,
}

pub open spec fn plain(reads_rs: bool, reads_rt: bool, write: int) -> Option<Use> {
    Some(Use { reads_rs, reads_rt, write: write as u32, mem: false, branch: false })
}

pub open spec fn memory(reads_rt: bool, write: int) -> Option<Use> {
    Some(Use { reads_rs: true, reads_rt, write: write as u32, mem: true, branch: false })
}

pub open spec fn branch(reads_rs: bool, reads_rt: bool, write: int) -> Option<Use> {
    Some(Use { reads_rs, reads_rt, write: write as u32, mem: false, branch: true })
}

/// What a SPECIAL instruction uses; `None` if it never pairs.
pub open spec fn special_use(instr: u32) -> Option<Use> {
    let f = funct(instr);
    if f == 0x00 || f == 0x02 || f == 0x03 || f == 0x38 || f == 0x3A || f == 0x3B || f == 0x3C || f == 0x3E || f == 0x3F {
        // sll/srl/sra and the dsll/dsrl/dsra(32) forms (nop included).
        plain(false, true, rd(instr))
    } else if f == 0x04 || f == 0x06 || f == 0x07 || f == 0x14 || f == 0x16 || f == 0x17 {
        // sllv/srlv/srav, dsllv/dsrlv/dsrav.
        plain(true, true, rd(instr))
    } else if f == 0x08 {
        // jr.
        branch(true, false, 0)
    } else if f == 0x09 {
        // jalr.
        branch(true, false, rd(instr))
    } else if f == 0x21 || (0x23 <= f <= 0x27) || f == 0x2A || f == 0x2B || f == 0x2D || f == 0x2F {
        // addu/subu/and/or/xor/nor/slt/sltu/daddu/dsubu; the trapping
        // add/sub/dadd/dsub forms are excluded (they may divert).
        plain(true, true, rd(instr))
    } else {
        None
    }
}

/// What an instruction uses; `None` if it never pairs.
pub open spec fn use_of(instr: u32) -> Option<Use> {
    let o = op(instr);
    if o == 0x00 {
        special_use(instr)
    } else if o == 0x01 {
        // bltz/bgez and the likely forms (the link forms never pair).
        if rt(instr) < 4 {
            branch(true, false, 0)
        } else {
            None
        }
    } else if o == 0x02 {
        branch(false, false, 0)
    } else if o == 0x03 {
        branch(false, false, 31)
    } else if o == 0x04 || o == 0x05 || o == 0x14 || o == 0x15 {
        branch(true, true, 0)
    } else if o == 0x06 || o == 0x07 || o == 0x16 || o == 0x17 {
        branch(true, false, 0)
    } else if (0x09 <= o <= 0x0E) || o == 0x19 {
        // addiu/slti/sltiu/andi/ori/xori and daddiu (addi/daddi may trap).
        plain(true, false, rt(instr))
    } else if o == 0x0F {
        plain(false, false, rt(instr))
    } else if o == 0x22 || o == 0x26 || o == 0x1A || o == 0x1B {
        // lwl/lwr and ldl/ldr merge with rt.
        memory(true, rt(instr))
    } else if o == 0x20 || o == 0x21 || (0x23 <= o <= 0x25) || o == 0x27 || o == 0x37 {
        // lb/lh/lw/lbu/lhu/lwu/ld.
        memory(false, rt(instr))
    } else if (0x28 <= o <= 0x2E) || o == 0x3F {
        // sb/sh/swl/sw/sdl/sdr/swr/sd.
        memory(true, 0)
    } else {
        None
    }
}

/// Whether an instruction that uses `u` reads register `r`.
pub open spec fn reads(instr: u32, u: Use, r: int) -> bool {
    (u.reads_rs && rs(instr) == r) || (u.reads_rt && rt(instr) == r)
}

/// Whether `first` may lead a couple at all.
pub open spec fn leads(first: u32) -> bool {
    match use_of(first) {
        Some(u) => !u.branch,
        None => false,
    }
}

/// Whether `second` retires in the same cycle as `first`.
pub open spec fn pairs(first: u32, second: u32) -> bool {
    match (use_of(first), use_of(second)) {
        (Some(a), Some(b)) => !a.branch && !(a.mem && b.mem) && (a.write == 0 || (!reads(second, b, a.write as int)
            && a.write != b.write)),
        _ => false,
    }
}

fn issue_use(instr: u32) -> (u: Option<Use>)
    ensures
        u == use_of(instr),
{
    let t: u32 = instr / 0x1_0000 % 32;
    let d: u32 = instr / 0x800 % 32;
    let o: u32 = instr / 0x400_0000;
    let f: u32 = instr % 64;
    let plain_use = Use { reads_rs: true, reads_rt: true, write: d, mem: false, branch: false };
    let branch_use = Use { reads_rs: true, reads_rt: false, write: 0, mem: false, branch: true };
    let load_use = Use { reads_rs: true, reads_rt: false, write: t, mem: true, branch: false };
    match o {
        0x00 => match f {
            0x00 | 0x02 | 0x03 | 0x38 | 0x3A | 0x3B | 0x3C | 0x3E | 0x3F => Some(Use { reads_rs: false, ..plain_use }),
            0x04 | 0x06 | 0x07 | 0x14 | 0x16 | 0x17 => Some(plain_use),
            0x08 => Some(branch_use),
            0x09 => Some(Use { write: d, ..branch_use }),
            0x21 | 0x23..=0x27 | 0x2A | 0x2B | 0x2D | 0x2F => Some(plain_use),
            _ => None,
        },
        0x01 => if t < 4 {
            Some(branch_use)
        } else {
            None
        },
        0x02 => Some(Use { reads_rs: false, ..branch_use }),
        0x03 => Some(Use { reads_rs: false, write: 31, ..branch_use }),
        0x04 | 0x05 | 0x14 | 0x15 => Some(Use { reads_rt: true, ..branch_use }),
        0x06 | 0x07 | 0x16 | 0x17 => Some(branch_use),
        0x09..=0x0E | 0x19 => Some(Use { reads_rt: false, write: t, ..plain_use }),
        0x0F => Some(Use { reads_rs: false, reads_rt: false, write: t, ..plain_use }),
        0x22 | 0x26 | 0x1A | 0x1B => Some(Use { reads_rt: true, ..load_use }),
        0x20 | 0x21 | 0x23..=0x25 | 0x27 | 0x37 => Some(load_use),
        0x28..=0x2E | 0x3F => Some(Use { reads_rt: true, write: 0, ..load_use }),
        _ => None,
    }
}

/// Whether `first` may lead a couple at all: a cheap pre-check so callers
/// can skip fetching the partner word.
pub fn may_lead(first: u32) -> (r: bool)
    ensures
        r == leads(first),
{
    match issue_use(first) {
        Some(u) => !u.branch,
        None => false,
    }
}

/// Whether `second` retires in the same cycle as `first`. Pure function of
/// the two instruction words; see the module doc for the caller's alignment
/// and sequencing obligations.
pub fn dual_issue(first: u32, second: u32) -> (r: bool)
    ensures
        r == pairs(first, second),
{
    match (issue_use(first), issue_use(second)) {
        (Some(a), Some(b)) => {
            // Branches never lead (the head must fall through) and the
            // single LS pipe takes one memory op per cycle.
            if a.branch || (a.mem && b.mem) {
                return false;
            }
            // RAW or WAW on the first half's destination stalls the second.
            let s: u32 = second / 0x20_0000 % 32;
            let t: u32 = second / 0x1_0000 % 32;
            a.write == 0 || (!(b.reads_rs && s == a.write) && !(b.reads_rt && t == a.write) && a.write != b.write)
        },
        _ => false,
    }
}

/// A couple never holds two memory operations, never starts with a branch,
/// and its second half neither reads nor writes what the first writes.
pub proof fn law_couples_are_independent(first: u32, second: u32)
    requires
        pairs(first, second),
    ensures
        leads(first),
        ({
            let a = use_of(first)->Some_0;
            let b = use_of(second)->Some_0;
            &&& !(a.mem && b.mem)
            &&& a.write != 0 ==> !reads(second, b, a.write as int) && a.write != b.write
        }),
{
}

/// What does not lead pairs with nothing.
pub proof fn law_only_leaders_pair(first: u32)
    requires
        !leads(first),
    ensures
        forall|second: u32| !pairs(first, second),
{
}

} // verus!
