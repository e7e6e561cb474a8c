//! The words that a block is drawn from.

use vstd::prelude::*;
use crate::bus::regs::BusModel;
use crate::bus::Bus;
use crate::ee::cpu::{relative, relative_of};
use super::block::{addr_of, ends_at, ends_block, last, law_blocks_are_short, MAX_BLOCK};

verus! {

/// What fetching the word at `a` gives, and the bus after it; past the end
/// of a memory there is nothing to fetch.
#[verifier::opaque]
pub open spec fn fetched(m: BusModel, a: u32) -> (u32, BusModel) {
    if BusModel::fits(m.phys(a), 4) {
        ((m.phys_value(m.phys(a), 4) % 0x1_0000_0000) as u32, m.phys_read(m.phys(a)))
    } else {
        (0, m)
    }
}

/// The words that the first `n` instructions at `pc` are drawn from, up to
/// the one after them, and the bus after fetching them: each instruction is
/// fetched and then the word after it, though that is fetched again as the
/// next instruction.
pub open spec fn fetched_from(m: BusModel, pc: u32, n: int) -> (Seq<u32>, BusModel)
    decreases n,
{
    if n <= 0 {
        (seq![], m)
    } else {
        let (words, before) = fetched_from(m, pc, n - 1);
        let (instr, between) = fetched(before, addr_of(pc, n - 1));
        let (next, after) = fetched(between, addr_of(pc, n));
        (words.take(n - 1).push(instr).push(next), after)
    }
}

fn fetch(bus: &mut Bus, a: u32) -> (w: u32)
    requires
        old(bus).wf(),
    ensures
        final(bus).wf(),
        (w, final(bus).model()) == fetched(old(bus).model(), a),
{
    proof {
        reveal(fetched);
    }
    if bus.fits_at(a, 4) {
        bus.fetch32(a)
    } else {
        0
    }
}

/// The words of the block at `pc`, up to the one that follows its last
/// instruction, which may be a delay slot.
pub fn fetch_block(bus: &mut Bus, pc: u32) -> (words: Vec<u32>)
    requires
        old(bus).wf(),
        pc % 4 == 0,
    ensures
        final(bus).wf(),
        words@.len() >= 2,
        ends_at(words@, pc, words@.len() - 2),
        (words@, final(bus).model()) == fetched_from(old(bus).model(), pc, words@.len() - 1),
{
    let mut words: Vec<u32> = Vec::new();
    let mut i: usize = 0;
    loop
        invariant
            bus.wf(),
            pc % 4 == 0,
            i <= MAX_BLOCK,
            words@.len() == (if i == 0 {
                0
            } else {
                i + 1
            }),
            (words@, bus.model()) == fetched_from(old(bus).model(), pc, i as int),
            forall|j: int| 0 <= j < i ==> !#[trigger] last(words@, pc, j),
        decreases MAX_BLOCK + 1 - i,
    {
        let addr: u32 = pc.wrapping_add(4 * i as u32);
        let next: u32 = addr.wrapping_add(4);
        assert(addr == addr_of(pc, i as int));
        assert(next == addr_of(pc, i + 1));
        let ghost before = words@;
        words.truncate(i);
        assert(words@ =~= before.take(i as int));
        let instr: u32 = fetch(bus, addr);
        words.push(instr);
        let after: u32 = fetch(bus, next);
        words.push(after);
        proof {
            reveal_with_fuel(fetched_from, 2);
            assert forall|j: int| 0 <= j < i implies !#[trigger] last(words@, pc, j) by {
                assert(!last(before, pc, j));
                assert(words@[j] == before[j]);
            }
        }
        if ends_block(instr, addr, i) {
            assert(last(words@, pc, i as int));
            return words;
        }
        assert(!last(words@, pc, i as int));
        proof {
            law_blocks_are_short(words@, pc, i + 1);
        }
        i = i + 1;
    }
}

/// Whether the words from `target` up to `addr` are all nops, and the bus
/// after fetching them up to the first that is not.
pub open spec fn nops(m: BusModel, target: u32, addr: u32) -> (bool, BusModel)
    decreases addr - target,
{
    if target >= addr {
        (true, m)
    } else {
        let (w, after) = fetched(m, target);
        if w != 0 {
            (false, after)
        } else if addr - target <= 4 {
            (true, after)
        } else {
            nops(after, (target + 4) as u32, addr)
        }
    }
}

/// The kernel idle thread: `beq $0,$0` backwards over nothing but nops,
/// delay slot included, at most 64 bytes back.
pub open spec fn idle_branch(addr: u32, instr: u32, slot: u32) -> bool {
    let target = relative(addr.wrapping_add(4), instr % 0x1_0000);
    &&& instr / 0x400_0000 == 0x04
    &&& instr / 0x1_0000 % 0x400 == 0
    &&& slot == 0
    &&& target <= addr
    &&& addr - target <= 64
}

pub fn is_idle_loop(bus: &mut Bus, addr: u32, instr: u32, slot: u32) -> (r: bool)
    requires
        old(bus).wf(),
    ensures
        final(bus).wf(),
        ({
            let (all, after) = nops(old(bus).model(), relative(addr.wrapping_add(4), instr % 0x1_0000), addr);
            &&& r == (idle_branch(addr, instr, slot) && all)
            &&& final(bus).model() == (if idle_branch(addr, instr, slot) {
                after
            } else {
                old(bus).model()
            })
        }),
{
    let target: u32 = relative_of(addr.wrapping_add(4), instr % 0x1_0000);
    if instr / 0x400_0000 != 0x04 || instr / 0x1_0000 % 0x400 != 0 || slot != 0 || target > addr || addr - target > 64 {
        return false;
    }
    let mut a: u32 = target;
    while a < addr
        invariant
            bus.wf(),
            a <= addr,
            idle_branch(addr, instr, slot),
            target == relative(addr.wrapping_add(4), instr % 0x1_0000),
            nops(bus.model(), a, addr) == nops(old(bus).model(), target, addr),
        decreases addr - a,
    {
        let w: u32 = fetch(bus, a);
        if w != 0 {
            return false;
        }
        if addr - a <= 4 {
            return true;
        }
        a = a + 4;
    }
    true
}

} // verus!
