//! What a block consists of: which instructions it takes in, how each is
//! translated, what it charges and how it ends.

use vstd::prelude::*;
use crate::ee::issue::{dual_issue, pairs};
use super::emit::{emit, lower, special_ops, BranchKind, Emitted, HostOp};
use super::native::{allowed, Natives};

verus! {

/// Longest block, in instructions; may run one further so the fall-through
/// lands 8-byte aligned (a block seam must never straddle a dual-issue
/// couple, or stepping and running would charge it differently).
pub const MAX_BLOCK: usize = 64;

/// Words that a block looks at, at the most.
pub const BLOCK_WORDS: usize = 66;

/// Instructions after which a block must end: anything that may change PC
/// other than by falling through.
#[verifier::opaque]
pub open spec fn control_flow(instr: u32) -> bool {
    let op = instr / 0x400_0000;
    let f = instr % 64;
    let s = instr / 0x20_0000 % 32;
    let t = instr / 0x1_0000 % 32;
    if op == 0x00 {
        // jr, jalr, syscall, break, traps.
        f == 0x08 || f == 0x09 || f == 0x0C || f == 0x0D || 0x30 <= f <= 0x36
    } else if op == 0x01 {
        t <= 0x03 || 0x10 <= t <= 0x13
    } else if op == 0x10 {
        // bc0 and the TLB/eret group. mtc0 and ei/di are translated in
        // place; an interrupt they unmask waits for the block to end.
        s == 0x08 || (s >= 0x10 && f != 0x38 && f != 0x39)
    } else if op == 0x11 || op == 0x12 {
        s == 0x08
    } else {
        // j/jal, beq..bgtz, likely.
        (0x02 <= op <= 0x07) || (0x14 <= op <= 0x17)
    }
}

pub fn is_control_flow(instr: u32) -> (r: bool)
    ensures
        r == control_flow(instr),
{
    proof {
        reveal(control_flow);
    }
    let s: u32 = instr / 0x20_0000 % 32;
    let t: u32 = instr / 0x1_0000 % 32;
    let f: u32 = instr % 64;
    match instr / 0x400_0000 {
        0x00 => f == 0x08 || f == 0x09 || f == 0x0C || f == 0x0D || (f >= 0x30 && f <= 0x36),
        0x01 => t <= 0x03 || (t >= 0x10 && t <= 0x13),
        0x02..=0x07 | 0x14..=0x17 => true,
        0x10 => s == 0x08 || (s >= 0x10 && f != 0x38 && f != 0x39),
        0x11 | 0x12 => s == 0x08,
        _ => false,
    }
}

/// Everything that is translated as a branch ends its block, so no delay
/// slot is one.
pub proof fn law_branches_are_control_flow(addr: u32, instr: u32)
    ensures
        lower(addr, instr).to is Branch ==> control_flow(instr),
{
    reveal(lower);
    reveal(special_ops);
    reveal(control_flow);
}

/// An exit to a constant target through a link cell.
#[derive(Clone, Copy, PartialEq, Eq, Structural, Debug)]
pub struct Link {
    pub cell: usize,
    pub target: u32,
}

/// What a block does, in order.
#[derive(Clone, Copy, PartialEq, Eq, Structural, Debug)]
pub enum Item {
    Op(HostOp),
    /// The interpreter runs one instruction; the block is left with
    /// `retired` cycles if it diverted control.
    Interp { addr: u32, instr: u32, retired: u32 },
    /// A likely branch not taken (r13 = 0): leave past the delay slot.
    LikelySkip { link: Link, retired: u32 },
}

/// Why no instruction follows.
#[derive(Clone, Copy, PartialEq, Eq, Structural, Debug)]
pub enum Stop {
    /// A translated branch, its delay slot included.
    Branch { kind: BranchKind, addr: u32, instr: u32, slot: u32 },
    /// An interpreted instruction that left the pc.
    Stored,
    /// The block is full, or its page ends.
    Full { to: u32 },
}

/// A block before its exits are settled.
pub struct Body {
    pub items: Vec<Item>,
    pub count: u32,
    pub cycles: u32,
    pub stop: Stop,
    /// Link cells taken so far.
    pub links: Vec<Link>,
}

/// A way out of a block.
#[derive(Clone, Copy, PartialEq, Eq, Structural, Debug)]
pub enum Way {
    Linked(Link),
    /// The kernel's idle loop: never linked, the dispatcher must see the
    /// flag.
    Idle(u32),
}

/// How a block ends; every way out adds its cycles first.
#[derive(Clone, Copy, PartialEq, Eq, Structural, Debug)]
pub enum End {
    Jump { way: Way },
    /// To the address in r14.
    Reg,
    /// By r13.
    Cond { taken: Way, fall: Link },
    Stored,
}

pub struct Plan {
    pub pc: u32,
    pub items: Vec<Item>,
    pub count: u32,
    pub cycles: u32,
    pub end: End,
    pub links: Vec<Link>,
}

// --- the instructions of a block ---------------------------------------------------

pub open spec fn addr_of(pc: u32, i: int) -> u32 {
    ((pc + 4 * i) % 0x1_0000_0000) as u32
}

#[verifier::opaque]
pub open spec fn couple(first: u32, second: u32) -> bool {
    pairs(first, second)
}

fn is_couple(first: u32, second: u32) -> (r: bool)
    ensures
        r == couple(first, second),
{
    proof {
        reveal(couple);
    }
    dual_issue(first, second)
}

/// Positions within a couple and within a page do not see the address wrap.
proof fn lemma_addr(pc: u32, i: int)
    requires
        i >= 0,
    ensures
        addr_of(pc, i) % 8 == (pc + 4 * i) % 8,
        addr_of(pc, i) % 4096 == (pc + 4 * i) % 4096,
{
}

/// The aligned second half of a hazard-free couple retires with its head.
pub open spec fn free(words: Seq<u32>, pc: u32, i: int) -> bool {
    i > 0 && addr_of(pc, i) % 8 == 4 && couple(words[i - 1], words[i])
}

/// Cycles of the first `n` instructions.
pub open spec fn cycles_of(words: Seq<u32>, pc: u32, n: int) -> int
    decreases n,
{
    if n <= 0 {
        0
    } else {
        cycles_of(words, pc, n - 1) + if free(words, pc, n - 1) {
            0int
        } else {
            1
        }
    }
}

/// What an instruction turns into where `natives` lists what is recompiled.
pub open spec fn emitted(natives: Option<Seq<u8>>, addr: u32, instr: u32) -> Emitted {
    if allowed(natives, instr) {
        lower(addr, instr).to
    } else {
        Emitted::Interp
    }
}

/// What an instruction turns into: a control-flow instruction with another
/// in its delay slot is undefined, and left to the interpreter.
pub open spec fn turned(natives: Option<Seq<u8>>, words: Seq<u32>, pc: u32, i: int) -> Emitted {
    if control_flow(words[i]) && control_flow(words[i + 1]) {
        Emitted::Interp
    } else {
        emitted(natives, addr_of(pc, i), words[i])
    }
}

/// No instruction follows the `i`-th.
pub open spec fn last(words: Seq<u32>, pc: u32, i: int) -> bool {
    ||| control_flow(words[i])
    ||| i + 1 >= MAX_BLOCK && addr_of(pc, i + 1) % 8 == 0
    ||| addr_of(pc, i + 1) % 4096 == 0
}

/// The block at `pc` ends with the `n`-th of these words, and the one after
/// it is known, too.
pub open spec fn ends_at(words: Seq<u32>, pc: u32, n: int) -> bool {
    &&& 0 <= n < words.len() - 1
    &&& last(words, pc, n)
    &&& forall|i: int| 0 <= i < n ==> !#[trigger] last(words, pc, i)
}

/// No block is longer than its limit, and one more where that is needed to
/// end aligned.
pub proof fn law_blocks_are_short(words: Seq<u32>, pc: u32, n: int)
    requires
        pc % 4 == 0,
        n >= 0,
        forall|i: int| 0 <= i < n ==> !#[trigger] last(words, pc, i),
    ensures
        n <= MAX_BLOCK,
{
    if n > MAX_BLOCK {
        assert(!last(words, pc, MAX_BLOCK as int - 1));
        assert(!last(words, pc, MAX_BLOCK as int));
        lemma_addr(pc, MAX_BLOCK as int);
        lemma_addr(pc, MAX_BLOCK + 1);
    }
}

/// In this many words every block ends.
pub proof fn law_blocks_end(words: Seq<u32>, pc: u32)
    requires
        words.len() >= BLOCK_WORDS,
        pc % 4 == 0,
    ensures
        exists|n: int| ends_at(words, pc, n),
{
    lemma_ends_by(words, pc, 0);
}

proof fn lemma_ends_by(words: Seq<u32>, pc: u32, n: int)
    requires
        words.len() >= BLOCK_WORDS,
        pc % 4 == 0,
        0 <= n <= MAX_BLOCK,
        forall|i: int| 0 <= i < n ==> !#[trigger] last(words, pc, i),
    ensures
        exists|k: int| ends_at(words, pc, k),
    decreases MAX_BLOCK + 1 - n,
{
    if last(words, pc, n) {
        assert(ends_at(words, pc, n));
    } else {
        law_blocks_are_short(words, pc, n + 1);
        lemma_ends_by(words, pc, n + 1);
    }
}

/// Whether no instruction follows the one at `addr`, the `i`-th.
pub fn ends_block(instr: u32, addr: u32, i: usize) -> (r: bool)
    requires
        i < 0x1_0000,
    ensures
        forall|words: Seq<u32>, pc: u32|
            0 <= i < words.len() && words[i as int] == instr && addr == addr_of(pc, i as int) ==> r == #[trigger] last(
                words,
                pc,
                i as int,
            ),
{
    let after: u32 = addr.wrapping_add(4);
    is_control_flow(instr) || (i + 1 >= MAX_BLOCK && after % 8 == 0) || after % 4096 == 0
}

pub open spec fn as_items(ops: Seq<HostOp>) -> Seq<Item> {
    Seq::new(ops.len(), |i: int| Item::Op(ops[i]))
}

/// The items of one instruction.
pub open spec fn item(addr: u32, instr: u32, to: Emitted, retired: int) -> Seq<Item> {
    if to is Interp {
        seq![Item::Interp { addr, instr, retired: retired as u32 }]
    } else {
        as_items(lower(addr, instr).ops)
    }
}

/// The items of the first `n` instructions.
pub open spec fn items_of(natives: Option<Seq<u8>>, words: Seq<u32>, pc: u32, n: int) -> Seq<Item>
    decreases n,
{
    if n <= 0 {
        seq![]
    } else {
        items_of(natives, words, pc, n - 1) + item(
            addr_of(pc, n - 1),
            words[n - 1],
            turned(natives, words, pc, n - 1),
            cycles_of(words, pc, n),
        )
    }
}

/// The delay slot of a branch with what precedes it: a likely branch not
/// taken leaves before it.
pub open spec fn slot_items(natives: Option<Seq<u8>>, kind: BranchKind, addr: u32, slot: u32, retired: int, cell: usize) -> Seq<Item> {
    let at = addr.wrapping_add(4);
    let skip = if kind matches BranchKind::Cond { likely: true, .. } {
        seq![Item::LikelySkip { link: Link { cell, target: at.wrapping_add(4) }, retired: retired as u32 }]
    } else {
        seq![]
    };
    skip + item(at, slot, emitted(natives, at, slot), retired + 1)
}

impl Body {
    /// The block drawn from the words at `pc`: its instructions are the
    /// first `n + 1`, the last of which ends it.
    pub open spec fn drawn(self, natives: Option<Seq<u8>>, words: Seq<u32>, pc: u32, cell: usize, n: int) -> bool {
        let addr = addr_of(pc, n);
        let retired = cycles_of(words, pc, n + 1);
        &&& 0 <= n < MAX_BLOCK + 1
        &&& forall|i: int| 0 <= i < n ==> !#[trigger] last(words, pc, i)
        &&& last(words, pc, n)
        &&& match turned(natives, words, pc, n) {
            Emitted::Branch(kind) => {
                &&& self.stop == Stop::Branch { kind, addr, instr: words[n], slot: words[n + 1] }
                &&& self.items@ == items_of(natives, words, pc, n + 1) + slot_items(natives, kind, addr, words[n + 1], retired, cell)
                &&& self.count == n + 2
                &&& self.cycles == retired + 1
                &&& self.links@ == (if kind matches BranchKind::Cond { likely: true, .. } {
                    seq![Link { cell, target: addr.wrapping_add(8) }]
                } else {
                    seq![]
                })
            },
            _ => {
                &&& self.stop == (if control_flow(words[n]) {
                    Stop::Stored
                } else {
                    Stop::Full { to: addr_of(pc, n + 1) }
                })
                &&& self.items@ == items_of(natives, words, pc, n + 1)
                &&& self.count == n + 1
                &&& self.cycles == retired
                &&& self.links@ == Seq::<Link>::empty()
            },
        }
    }
}

/// A couple costs one cycle and anything else one each: a block of `n`
/// instructions costs between half of `n` and `n`.
pub proof fn law_couples_cost_one_cycle(words: Seq<u32>, pc: u32, n: int)
    requires
        n >= 0,
        pc % 4 == 0,
    ensures
        n <= 2 * cycles_of(words, pc, n) <= 2 * n,
    decreases n,
{
    if n == 1 {
        reveal_with_fuel(cycles_of, 2);
    } else if n > 1 {
        law_couples_cost_one_cycle(words, pc, n - 2);
        reveal_with_fuel(cycles_of, 3);
        lemma_addr(pc, n - 1);
        lemma_addr(pc, n - 2);
    }
}

/// A block that ends without control flow ends 8-byte aligned: no seam
/// straddles a dual-issue couple.
pub proof fn law_seams_are_aligned(natives: Option<Seq<u8>>, b: Body, words: Seq<u32>, pc: u32, cell: usize, n: int)
    requires
        b.drawn(natives, words, pc, cell, n),
        b.stop is Full,
    ensures
        b.stop->to % 8 == 0,
        b.stop->to == addr_of(pc, b.count as int),
{
    law_branches_are_control_flow(addr_of(pc, n), words[n]);
}

fn push_ops(items: &mut Vec<Item>, ops: &Vec<HostOp>)
    ensures
        final(items)@ == old(items)@ + as_items(ops@),
{
    let mut i: usize = 0;
    while i < ops.len()
        invariant
            i <= ops@.len(),
            items@ == old(items)@ + as_items(ops@.take(i as int)),
        decreases ops@.len() - i,
    {
        items.push(Item::Op(ops[i]));
        i = i + 1;
        assert(items@ =~= old(items)@ + as_items(ops@.take(i as int)));
    }
    assert(ops@.take(i as int) =~= ops@);
}

/// One instruction's items; `left` leaves it to the interpreter.
fn push_instr(items: &mut Vec<Item>, addr: u32, instr: u32, left: bool, retired: u32) -> (to: Emitted)
    ensures
        to == (if left {
            Emitted::Interp
        } else {
            lower(addr, instr).to
        }),
        final(items)@ == old(items)@ + item(addr, instr, to, retired as int),
{
    if !left {
        let (ops, to) = emit(addr, instr);
        match to {
            Emitted::Interp => {},
            _ => {
                push_ops(items, &ops);
                return to;
            },
        }
    }
    items.push(Item::Interp { addr, instr, retired });
    assert(items@ =~= old(items)@ + item(addr, instr, Emitted::Interp, retired as int));
    Emitted::Interp
}

/// Draw the block at `pc` from the words there, with the instructions that
/// `natives` lists recompiled.
#[verifier::rlimit(40)]
pub fn draw(natives: &Natives, words: &Vec<u32>, pc: u32, cell: usize) -> (b: Body)
    requires
        exists|n: int| ends_at(words@, pc, n),
        pc % 4 == 0,
    ensures
        exists|n: int| b.drawn(natives@, words@, pc, cell, n),
{
    let ghost end = choose|n: int| ends_at(words@, pc, n);
    let mut items: Vec<Item> = Vec::new();
    let mut i: usize = 0;
    let mut cycles: u32 = 0;
    assert(items@ =~= items_of(natives@, words@, pc, 0));
    loop
        invariant
            ends_at(words@, pc, end),
            i <= end,
            pc % 4 == 0,
            i <= MAX_BLOCK,
            cycles == cycles_of(words@, pc, i as int),
            cycles <= i,
            items@ == items_of(natives@, words@, pc, i as int),
            forall|j: int| 0 <= j < i ==> !#[trigger] last(words@, pc, j),
        decreases MAX_BLOCK + 1 - i,
    {
        let addr: u32 = pc.wrapping_add(4 * i as u32);
        let instr: u32 = words[i];
        let next: u32 = words[i + 1];
        assert(addr == addr_of(pc, i as int));
        let free = i > 0 && addr % 8 == 4 && is_couple(words[i - 1], instr);
        let control = is_control_flow(instr);
        let undefined = control && is_control_flow(next);
        let retired: u32 = if free { cycles } else { cycles + 1 };
        proof {
            reveal_with_fuel(cycles_of, 2);
            reveal_with_fuel(items_of, 2);
            law_branches_are_control_flow(addr, instr);
        }
        let to = push_instr(&mut items, addr, instr, undefined || !natives.allows(instr), retired);
        assert(to == turned(natives@, words@, pc, i as int));
        assert(items@ == items_of(natives@, words@, pc, i + 1));
        if let Emitted::Branch(kind) = to {
            let at: u32 = addr.wrapping_add(4);
            let mut links: Vec<Link> = Vec::new();
            let ghost before = items@;
            if let BranchKind::Cond { likely: true, .. } = kind {
                let link = Link { cell, target: at.wrapping_add(4) };
                items.push(Item::LikelySkip { link, retired });
                links.push(link);
            }
            let _ = push_instr(&mut items, at, next, !natives.allows(next), retired + 1);
            assert(items@ =~= before + slot_items(natives@, kind, addr, next, retired as int, cell));
            let stop = Stop::Branch { kind, addr, instr, slot: next };
            let b = Body { items, count: i as u32 + 2, cycles: retired + 1, stop, links };
            assert(b.links@ =~= (if kind matches BranchKind::Cond { likely: true, .. } {
                seq![Link { cell, target: addr.wrapping_add(8) }]
            } else {
                seq![]
            }));
            assert(b.drawn(natives@, words@, pc, cell, i as int));
            return b;
        }
        let after: u32 = addr.wrapping_add(4);
        assert(after == addr_of(pc, i + 1));
        if control || (i + 1 >= MAX_BLOCK && after % 8 == 0) || after % 4096 == 0 {
            let stop = if control { Stop::Stored } else { Stop::Full { to: after } };
            let b = Body { items, count: i as u32 + 1, cycles: retired, stop, links: Vec::new() };
            assert(b.links@ =~= Seq::<Link>::empty());
            assert(b.drawn(natives@, words@, pc, cell, i as int));
            return b;
        }
        assert(!last(words@, pc, i as int));
        assert(i != end);
        proof {
            law_blocks_are_short(words@, pc, i + 1);
        }
        cycles = retired;
        i = i + 1;
    }
}

// --- the exits ---------------------------------------------------------------------

/// A way to a branch target; `cell` is the next free link cell.
pub open spec fn way(target: u32, idle: bool, cell: int) -> Way {
    if idle {
        Way::Idle(target)
    } else {
        Way::Linked(Link { cell: cell as usize, target })
    }
}

/// Links that a way takes.
pub open spec fn way_links(w: Way) -> Seq<Link> {
    match w {
        Way::Linked(l) => seq![l],
        Way::Idle(_) => seq![],
    }
}

/// How a block ends, by why it stops; `cell` is the next free link cell.
pub open spec fn end_of(stop: Stop, idle: bool, cell: int) -> (End, Seq<Link>) {
    match stop {
        Stop::Branch { kind: BranchKind::Jump(target), .. } => {
            let w = way(target, idle, cell);
            (End::Jump { way: w }, way_links(w))
        },
        Stop::Branch { kind: BranchKind::JumpReg, .. } => (End::Reg, seq![]),
        Stop::Branch { kind: BranchKind::Cond { target, .. }, addr, .. } => {
            let w = way(target, idle, cell);
            let fall = Link { cell: (cell + way_links(w).len()) as usize, target: addr.wrapping_add(8) };
            (End::Cond { taken: w, fall }, way_links(w).push(fall))
        },
        Stop::Stored => (End::Stored, seq![]),
        Stop::Full { to } => {
            let w = way(to, false, cell);
            (End::Jump { way: w }, way_links(w))
        },
    }
}

fn take_way(links: &mut Vec<Link>, target: u32, idle: bool, cell: usize) -> (w: Way)
    ensures
        w == way(target, idle, cell as int),
        final(links)@ == old(links)@ + way_links(w),
{
    if idle {
        assert(links@ =~= links@ + way_links(Way::Idle(target)));
        Way::Idle(target)
    } else {
        let l = Link { cell, target };
        links.push(l);
        assert(links@ =~= old(links)@ + way_links(Way::Linked(l)));
        Way::Linked(l)
    }
}

impl Plan {
    /// The plan of a drawn block, whose first link cell was `cell`.
    pub open spec fn of(self, b: Body, pc: u32, cell: usize, idle: bool) -> bool {
        &&& self.pc == pc
        &&& self.items@ == b.items@
        &&& self.count == b.count
        &&& self.cycles == b.cycles
        &&& self.end == end_of(b.stop, idle, cell + b.links@.len()).0
        &&& self.links@ == b.links@ + end_of(b.stop, idle, cell + b.links@.len()).1
    }
}

/// Settle a block's exits: `cell` is the first free link cell when it was
/// drawn, `idle` whether its branch is the kernel's idle loop.
pub fn settle(b: Body, pc: u32, cell: usize, idle: bool) -> (p: Plan)
    requires
        cell + b.links@.len() + 2 <= usize::MAX,
        b.links@.len() <= 1,
    ensures
        p.of(b, pc, cell, idle),
{
    let mut links: Vec<Link> = b.links;
    let at: usize = cell + links.len();
    let end = match b.stop {
        Stop::Branch { kind, addr, .. } => match kind {
            BranchKind::Jump(target) => End::Jump { way: take_way(&mut links, target, idle, at) },
            BranchKind::JumpReg => End::Reg,
            BranchKind::Cond { target, .. } => {
                let taken = take_way(&mut links, target, idle, at);
                let fall = Link { cell: if idle { at } else { at + 1 }, target: addr.wrapping_add(8) };
                links.push(fall);
                End::Cond { taken, fall }
            },
        },
        Stop::Stored => End::Stored,
        Stop::Full { to } => End::Jump { way: take_way(&mut links, to, false, at) },
    };
    assert(links@ =~= b.links@ + end_of(b.stop, idle, cell + b.links@.len()).1);
    Plan { pc, items: b.items, count: b.count, cycles: b.cycles, end, links }
}

/// Every exit of a block has a cell of its own, taken in order from the
/// first free one, and there are at most three.
pub proof fn law_exits_take_cells_in_order(links: Seq<Link>, stop: Stop, idle: bool, cell: usize)
    requires
        links.len() <= 1,
        links.len() == 1 ==> links[0].cell == cell,
        cell + 3 <= usize::MAX,
    ensures
        ({
            let all = links + end_of(stop, idle, cell + links.len()).1;
            &&& all.len() <= 3
            &&& forall|i: int| 0 <= i < all.len() ==> (#[trigger] all[i]).cell == cell + i
        }),
{
}

} // verus!
