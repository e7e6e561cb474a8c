//! A block does what the interpreter does with its instructions, one after
//! the other.

use vstd::prelude::*;
use crate::ee::alu::low32;
use crate::ee::cop0::interrupted;
use crate::ee::cpu::{amount, function, immediate, CpuModel, FpuCall, Outcome};
use crate::ee::exec::{opcode, Machine};
use crate::ee::issue::{rs, rt};
use super::block::{
    addr_of, as_items, control_flow, cycles_of, emitted, item, items_of, law_branches_are_control_flow, slot_items, turned, Body,
    End, Item, Plan, Stop, Way,
};
use super::emit::{
    field_d, field_s, field_t, lower, lower_access, lower_branch, lower_cop0, lower_cop1, lower_immediate, lower_mmi,
    lower_regimm, lower_special, special_ops, BranchKind, Emitted, HostOp, HostReg,
};
use super::laws::{all_effect, law_branch_translation_agrees, law_translation_agrees, resolved, Host};
use super::model::{on_bus, on_registers, Core, Regs};
use super::place::{
    lemma_completed_anywhere, lemma_cop2_anywhere, lemma_mmi_anywhere, lemma_moved_is_same, lemma_same_anywhere, machine_at,
    moved_to, place_at, same_but_place, Place,
};

verus! {

// --- translated code does not look at the pc ---------------------------------------

impl Host {
    pub open spec fn moved_to(self, p: Place) -> Host {
        Host { k: Core { c: moved_to(self.k.c, p), ..self.k }, ..self }
    }
}

proof fn lemma_move_anywhere(k: Core, p: Place, op: HostOp)
    ensures
        (Core { c: moved_to(k.c, p), ..k }).moved(op) == (Core { c: moved_to(k.moved(op).c, p), ..k.moved(op) }),
{
    reveal(Core::moved);
    if let HostOp::Mmi { instr } = op {
        lemma_mmi_anywhere(k.c, p, instr);
    }
    if let HostOp::Cop2 { instr } = op {
        lemma_cop2_anywhere(k.c, p, instr);
    }
}

proof fn lemma_call_anywhere(h: Host, p: Place, op: HostOp)
    ensures
        h.moved_to(p).called(op) == h.called(op).moved_to(p),
{
    reveal(Host::called);
    reveal(Machine::value);
    reveal(Machine::after_read);
    reveal(Machine::after_write);
    reveal(Machine::quad_at);
    reveal(Machine::after_quad);
    reveal(Machine::quad_written);
}

proof fn lemma_op_anywhere(h: Host, p: Place, op: HostOp)
    ensures
        h.moved_to(p).ran(op) == h.ran(op).moved_to(p),
{
    reveal(Host::ran);
    if on_bus(op) {
        lemma_call_anywhere(h, p, op);
    } else {
        reveal(Core::ran);
        if !on_registers(op) {
            lemma_move_anywhere(h.k, p, op);
        }
    }
}

/// Operations do the same wherever the processor is.
proof fn lemma_ops_anywhere(ops: Seq<HostOp>, i: int, h: Host, p: Place)
    requires
        0 <= i <= ops.len(),
    ensures
        all_effect(ops, i, h.moved_to(p)) == all_effect(ops, i, h).moved_to(p),
    decreases ops.len() - i,
{
    if i < ops.len() {
        lemma_op_anywhere(h, p, ops[i]);
        lemma_ops_anywhere(ops, i + 1, h.ran(ops[i]), p);
    }
}

proof fn lemma_single_kept(op: HostOp, h: Host)
    ensures
        h.ran(op).k.single == h.k.single,
{
    reveal(Host::ran);
    reveal(Host::called);
    reveal(Core::ran);
    reveal(Core::moved);
}

proof fn lemma_single_stays(ops: Seq<HostOp>, i: int, h: Host)
    requires
        0 <= i <= ops.len(),
    ensures
        all_effect(ops, i, h).k.single == h.k.single,
    decreases ops.len() - i,
{
    if i < ops.len() {
        lemma_single_kept(ops[i], h);
        lemma_single_stays(ops, i + 1, h.ran(ops[i]));
    }
}

// --- running the items of a block ---------------------------------------------------

impl Host {
    /// The processor and the bus replaced.
    pub open spec fn turned_into(self, m: Machine) -> Host {
        Host { k: Core { c: m.cpu, ..self.k }, bus: m.bus }
    }

    /// One item done.
    pub open spec fn did(self, it: Item) -> Host {
        match it {
            Item::Op(op) => self.ran(op),
            Item::Interp { addr, instr, .. } => self.turned_into(
                self.machine().placed_at(addr).completed(instr, self.k.single).0,
            ),
            Item::LikelySkip { .. } => self,
        }
    }

    /// Whether the block is left at an item: an interpreted instruction
    /// diverted control, or a likely branch is not taken.
    pub open spec fn leaves(self, it: Item) -> bool {
        match it {
            Item::Op(_) => false,
            Item::Interp { addr, .. } => self.did(it).k.c.diverted(addr),
            Item::LikelySkip { .. } => self.k.r.r13 == 0,
        }
    }
}

/// The first `n` items done.
pub open spec fn done_with(items: Seq<Item>, n: int, h: Host) -> Host
    decreases n,
{
    if n <= 0 {
        h
    } else {
        done_with(items, n - 1, h).did(items[n - 1])
    }
}

/// None of the first `n` items leaves the block.
pub open spec fn stays(items: Seq<Item>, n: int, h: Host) -> bool
    decreases n,
{
    n <= 0 || (stays(items, n - 1, h) && !done_with(items, n - 1, h).leaves(items[n - 1]))
}

/// Items that follow others.
proof fn lemma_done_join(a: Seq<Item>, b: Seq<Item>, n: int, h: Host)
    requires
        0 <= n <= b.len(),
    ensures
        done_with(a + b, a.len() + n, h) == done_with(b, n, done_with(a, a.len() as int, h)),
    decreases n,
{
    if n == 0 {
        lemma_done_prefix(a, b, a.len() as int, h);
    } else {
        lemma_done_join(a, b, n - 1, h);
        assert((a + b)[a.len() + n - 1] == b[n - 1]);
    }
}

proof fn lemma_done_prefix(a: Seq<Item>, b: Seq<Item>, n: int, h: Host)
    requires
        0 <= n <= a.len(),
    ensures
        done_with(a + b, n, h) == done_with(a, n, h),
    decreases n,
{
    if n > 0 {
        lemma_done_prefix(a, b, n - 1, h);
        assert((a + b)[n - 1] == a[n - 1]);
    }
}

proof fn lemma_stays_prefix(a: Seq<Item>, b: Seq<Item>, n: int, h: Host)
    requires
        0 <= n <= a.len(),
    ensures
        stays(a + b, n, h) == stays(a, n, h),
    decreases n,
{
    if n > 0 {
        lemma_stays_prefix(a, b, n - 1, h);
        lemma_done_prefix(a, b, n - 1, h);
        assert((a + b)[n - 1] == a[n - 1]);
    }
}

proof fn lemma_stays_join(a: Seq<Item>, b: Seq<Item>, n: int, h: Host)
    requires
        0 <= n <= b.len(),
        stays(a, a.len() as int, h),
    ensures
        stays(a + b, a.len() + n, h) == stays(b, n, done_with(a, a.len() as int, h)),
    decreases n,
{
    if n == 0 {
        lemma_stays_prefix(a, b, a.len() as int, h);
    } else {
        lemma_stays_join(a, b, n - 1, h);
        lemma_done_join(a, b, n - 1, h);
        assert((a + b)[a.len() + n - 1] == b[n - 1]);
    }
}

/// Operations as items.
proof fn lemma_done_ops(ops: Seq<HostOp>, n: int, h: Host)
    requires
        0 <= n <= ops.len(),
    ensures
        all_effect(ops, n, done_with(as_items(ops), n, h)) == all_effect(ops, 0, h),
        stays(as_items(ops), n, h),
    decreases n,
{
    if n > 0 {
        lemma_done_ops(ops, n - 1, h);
    }
}

proof fn lemma_ops_done(ops: Seq<HostOp>, h: Host)
    ensures
        done_with(as_items(ops), ops.len() as int, h) == all_effect(ops, 0, h),
        stays(as_items(ops), as_items(ops).len() as int, h),
{
    lemma_done_ops(ops, ops.len() as int, h);
}

// --- what the interpreter does -------------------------------------------------------

/// The first `n` instructions at `pc`, each interpreted in its place.
pub open spec fn interpreted(m: Machine, words: Seq<u32>, pc: u32, n: int, single: spec_fn(FpuCall) -> u32) -> Machine
    decreases n,
{
    if n <= 0 {
        m
    } else {
        interpreted(m, words, pc, n - 1, single).placed_at(addr_of(pc, n - 1)).completed(words[n - 1], single).0
    }
}

/// The `i`-th instruction completes and control falls through.
pub open spec fn falls_through(m: Machine, words: Seq<u32>, pc: u32, i: int, single: spec_fn(FpuCall) -> u32) -> bool {
    let (x, o) = interpreted(m, words, pc, i, single).placed_at(addr_of(pc, i)).completed(words[i], single);
    o is Done && !x.cpu.diverted(addr_of(pc, i))
}

/// A 128-bit load into register zero, whose read is not translated.
pub open spec fn idle_read(instr: u32) -> bool {
    (opcode(instr) == 0x1E || opcode(instr) == 0x36) && rt(instr) == 0
}

/// One instruction of a block.
proof fn lemma_item_agrees(addr: u32, instr: u32, to: Emitted, retired: int, h: Host, m: Machine)
    requires
        same_but_place(h.machine(), m),
        to is Interp || (to == Emitted::Plain && lower(addr, instr).to == Emitted::Plain && !idle_read(instr)),
        m.placed_at(addr).completed(instr, h.k.single).1 is Done,
        !m.placed_at(addr).completed(instr, h.k.single).0.cpu.diverted(addr),
    ensures
        ({
            let items = item(addr, instr, to, retired);
            let after = done_with(items, items.len() as int, h);
            &&& stays(items, items.len() as int, h)
            &&& same_but_place(after.machine(), m.placed_at(addr).completed(instr, h.k.single).0)
            &&& after.k.single == h.k.single
        }),
{
    let items = item(addr, instr, to, retired);
    assert(h.machine().placed_at(addr) == m.placed_at(addr)) by {
        lemma_same_anywhere(h.machine(), m, place_at(addr));
    }
    if to is Interp {
        reveal_with_fuel(done_with, 2);
        reveal_with_fuel(stays, 2);
        assert(items.len() == 1);
        assert(done_with(items, 0, h) == h);
        assert(done_with(items, 1, h) == h.did(items[0]));
    } else {
        let ops = lower(addr, instr).ops;
        let there = h.moved_to(place_at(addr));
        assert(there.machine() == m.placed_at(addr));
        lemma_ops_done(ops, h);
        lemma_ops_anywhere(ops, 0, h, place_at(addr));
        lemma_single_stays(ops, 0, h);
        law_translation_agrees(addr, instr, there);
        assert(items.len() == ops.len());
        let e = all_effect(ops, 0, h);
        assert(m.placed_at(addr).completed(instr, h.k.single).0 == e.moved_to(place_at(addr)).machine());
        assert(moved_to(moved_to(e.k.c, place_at(addr)), place_at(0)) == moved_to(e.k.c, place_at(0)));
    }
}

/// The translated instructions of a block, run one after the other, leave
/// the machine as the interpreter does, as long as the interpreter falls
/// through each of them; only where the processor is goes unrecorded until
/// the block is left. A 128-bit load into register zero is set apart: its
/// read is not translated.
pub proof fn law_straight_code_agrees(natives: Option<Seq<u8>>, words: Seq<u32>, pc: u32, n: int, h: Host)
    requires
        n >= 0,
        forall|i: int| 0 <= i < n ==> !(#[trigger] turned(natives, words, pc, i) is Branch),
        forall|i: int| 0 <= i < n ==> #[trigger] falls_through(h.machine(), words, pc, i, h.k.single),
        forall|i: int| 0 <= i < n ==> !idle_read(#[trigger] words[i]),
    ensures
        ({
            let items = items_of(natives, words, pc, n);
            &&& stays(items, items.len() as int, h)
            &&& same_but_place(
                done_with(items, items.len() as int, h).machine(),
                interpreted(h.machine(), words, pc, n, h.k.single),
            )
            &&& done_with(items, items.len() as int, h).k.single == h.k.single
        }),
    decreases n,
{
    if n > 0 {
        law_straight_code_agrees(natives, words, pc, n - 1, h);
        let before = items_of(natives, words, pc, n - 1);
        let mid = done_with(before, before.len() as int, h);
        let to = turned(natives, words, pc, n - 1);
        let last = item(addr_of(pc, n - 1), words[n - 1], to, cycles_of(words, pc, n));
        let m = interpreted(h.machine(), words, pc, n - 1, h.k.single);
        assert(falls_through(h.machine(), words, pc, n - 1, h.k.single));
        assert(!idle_read(words[n - 1]));
        lemma_item_agrees(addr_of(pc, n - 1), words[n - 1], to, cycles_of(words, pc, n), mid, m);
        lemma_done_join(before, last, last.len() as int, h);
        lemma_stays_join(before, last, last.len() as int, h);
    }
}

// --- the end of a block ---------------------------------------------------------------

pub open spec fn for_branches(r: HostReg) -> bool {
    r == HostReg::R13 || r == HostReg::R14
}

/// An operation that keeps the pending condition and target.
pub open spec fn keeps_branch(op: HostOp) -> bool {
    match op {
        HostOp::Load { reg, .. } | HostOp::LoadLow { reg, .. } | HostOp::Put { reg, .. } | HostOp::Extend { reg } => !for_branches(
            reg,
        ),
        HostOp::Compare { to, .. } | HostOp::CompareImm { to, .. } => !for_branches(to),
        HostOp::LoadCondition { .. } => false,
        _ => true,
    }
}

pub open spec fn all_keep(ops: Seq<HostOp>) -> bool {
    forall|j: int| 0 <= j < ops.len() ==> keeps_branch(#[trigger] ops[j])
}

proof fn lemma_special_keeps_low(addr: u32, f: u32, s: u32, t: u32, d: u32, n: u32)
    requires
        f < 0x10,
        special_ops(addr, f, s, t, d, n).to == Emitted::Plain,
    ensures
        all_keep(special_ops(addr, f, s, t, d, n).ops),
{
    reveal(special_ops);
}

proof fn lemma_special_keeps_mid(addr: u32, f: u32, s: u32, t: u32, d: u32, n: u32)
    requires
        0x10 <= f < 0x20,
        special_ops(addr, f, s, t, d, n).to == Emitted::Plain,
    ensures
        all_keep(special_ops(addr, f, s, t, d, n).ops),
{
    reveal(special_ops);
}

proof fn lemma_special_keeps_high(addr: u32, f: u32, s: u32, t: u32, d: u32, n: u32)
    requires
        0x20 <= f < 0x2C,
        special_ops(addr, f, s, t, d, n).to == Emitted::Plain,
    ensures
        all_keep(special_ops(addr, f, s, t, d, n).ops),
{
    reveal(special_ops);
}

proof fn lemma_special_keeps_rest(addr: u32, f: u32, s: u32, t: u32, d: u32, n: u32)
    requires
        f >= 0x2C,
        special_ops(addr, f, s, t, d, n).to == Emitted::Plain,
    ensures
        all_keep(special_ops(addr, f, s, t, d, n).ops),
{
    reveal(special_ops);
}

proof fn lemma_special_keeps(addr: u32, instr: u32)
    ensures
        lower_special(addr, instr).to == Emitted::Plain ==> all_keep(lower_special(addr, instr).ops),
{
    let (f, s, t, d, n) = (function(instr), field_s(instr), field_t(instr), field_d(instr), amount(instr));
    if special_ops(addr, f, s, t, d, n).to == Emitted::Plain {
        if f < 0x10 {
            lemma_special_keeps_low(addr, f, s, t, d, n);
        } else if f < 0x20 {
            lemma_special_keeps_mid(addr, f, s, t, d, n);
        } else if f < 0x2C {
            lemma_special_keeps_high(addr, f, s, t, d, n);
        } else {
            lemma_special_keeps_rest(addr, f, s, t, d, n);
        }
    }
}

proof fn lemma_rest_keeps(addr: u32, instr: u32)
    ensures
        lower_regimm(addr, instr).to == Emitted::Plain ==> all_keep(lower_regimm(addr, instr).ops),
        lower_branch(addr, instr).to == Emitted::Plain ==> all_keep(lower_branch(addr, instr).ops),
        lower_immediate(instr).to == Emitted::Plain ==> all_keep(lower_immediate(instr).ops),
{
}

proof fn lemma_cop_keeps(addr: u32, instr: u32)
    ensures
        all_keep(lower_mmi(instr).ops),
        lower_cop1(addr, instr).to == Emitted::Plain ==> all_keep(lower_cop1(addr, instr).ops),
        all_keep(lower_cop0(instr).ops),
{
}

proof fn lemma_access_keeps(instr: u32)
    ensures
        all_keep(lower_access(instr).ops),
{
}

/// What stands in a delay slot leaves the branch before it alone.
proof fn lemma_plain_keeps(addr: u32, instr: u32)
    requires
        lower(addr, instr).to == Emitted::Plain,
    ensures
        all_keep(lower(addr, instr).ops),
{
    reveal(lower);
    lemma_special_keeps(addr, instr);
    lemma_rest_keeps(addr, instr);
    lemma_cop_keeps(addr, instr);
    lemma_access_keeps(instr);
}

proof fn lemma_op_keeps(op: HostOp, h: Host)
    requires
        keeps_branch(op),
    ensures
        h.ran(op).k.r.r13 == h.k.r.r13,
        h.ran(op).k.r.r14 == h.k.r.r14,
{
    reveal(Host::ran);
    reveal(Host::called);
    reveal(Core::ran);
    reveal(Core::moved);
    reveal(Regs::computed);
}

proof fn lemma_ops_keep(ops: Seq<HostOp>, i: int, h: Host)
    requires
        0 <= i <= ops.len(),
        all_keep(ops),
    ensures
        all_effect(ops, i, h).k.r.r13 == h.k.r.r13,
        all_effect(ops, i, h).k.r.r14 == h.k.r.r14,
    decreases ops.len() - i,
{
    if i < ops.len() {
        lemma_op_keeps(ops[i], h);
        lemma_ops_keep(ops, i + 1, h.ran(ops[i]));
    }
}

/// So does an interpreted instruction.
proof fn lemma_item_keeps(addr: u32, instr: u32, to: Emitted, retired: int, h: Host)
    requires
        to is Interp || (to == Emitted::Plain && lower(addr, instr).to == Emitted::Plain),
    ensures
        ({
            let items = item(addr, instr, to, retired);
            let after = done_with(items, items.len() as int, h);
            after.k.r.r13 == h.k.r.r13 && after.k.r.r14 == h.k.r.r14
        }),
{
    let items = item(addr, instr, to, retired);
    if to is Interp {
        reveal_with_fuel(done_with, 2);
        assert(items.len() == 1);
    } else {
        let ops = lower(addr, instr).ops;
        lemma_plain_keeps(addr, instr);
        lemma_ops_done(ops, h);
        lemma_ops_keep(ops, 0, h);
        assert(items.len() == ops.len());
    }
}

/// Where the delay slot of a branch begins.
pub open spec fn slot_place(c: CpuModel) -> Place {
    Place { pc: c.next_pc, next_pc: c.next_pc.wrapping_add(4), delay: false, current: c.pc, in_delay: true }
}

/// A block's instructions interpreted: the last is the `n`-th, and if it is
/// a branch, its delay slot follows.
pub open spec fn block_interpreted(m: Machine, words: Seq<u32>, pc: u32, n: int, single: spec_fn(FpuCall) -> u32) -> Machine {
    let b = interpreted(m, words, pc, n + 1, single);
    if b.cpu.delay {
        machine_at(b, slot_place(b.cpu)).completed(words[n + 1], single).0
    } else {
        b
    }
}

pub open spec fn way_to(w: Way) -> u32 {
    match w {
        Way::Linked(l) => l.target,
        Way::Idle(to) => to,
    }
}

/// The pc that the end of a block leads to.
pub open spec fn leads_to(end: End, h: Host) -> u32 {
    match end {
        End::Jump { way } => way_to(way),
        End::Reg => low32(h.k.r.r14),
        End::Cond { taken, fall } => if h.k.r.r13 != 0 {
            way_to(taken)
        } else {
            fall.target
        },
        End::Stored => h.k.c.pc,
    }
}

proof fn lemma_registers_stay(m: Machine, words: Seq<u32>, pc: u32, n: int, single: spec_fn(FpuCall) -> u32)
    requires
        m.cpu.gpr.len() == 32,
    ensures
        interpreted(m, words, pc, n, single).cpu.gpr.len() == 32,
    decreases n,
{
    if n > 0 {
        lemma_registers_stay(m, words, pc, n - 1, single);
        let before = interpreted(m, words, pc, n - 1, single).placed_at(addr_of(pc, n - 1));
        lemma_completed_anywhere(before, place_at(0), words[n - 1], single);
    }
}

/// Nothing before the last instruction of a block branches.
proof fn lemma_straight(natives: Option<Seq<u8>>, b: Body, words: Seq<u32>, pc: u32, cell: usize, n: int, i: int)
    requires
        b.drawn(natives, words, pc, cell, n),
        0 <= i < n || (i == n && !(turned(natives, words, pc, n) is Branch)),
    ensures
        !(turned(natives, words, pc, i) is Branch),
{
    law_branches_are_control_flow(addr_of(pc, i), words[i]);
    if i < n {
        assert(!super::block::last(words, pc, i));
    }
}

/// What a full block is made of.
proof fn lemma_full_shape(natives: Option<Seq<u8>>, b: Body, p: Plan, words: Seq<u32>, pc: u32, cell: usize, n: int, idle: bool)
    requires
        b.drawn(natives, words, pc, cell, n),
        p.of(b, pc, cell, idle),
        b.stop is Full,
    ensures
        n >= 0,
        p.items@ == items_of(natives, words, pc, n + 1),
        forall|h: Host| #[trigger] leads_to(p.end, h) == addr_of(pc, n + 1),
        forall|i: int| 0 <= i < n + 1 ==> !(#[trigger] turned(natives, words, pc, i) is Branch),
{
    assert forall|i: int| 0 <= i < n + 1 implies !(#[trigger] turned(natives, words, pc, i) is Branch) by {
        lemma_straight(natives, b, words, pc, cell, n, i);
    }
}

/// Where the interpreter is after an instruction that falls through.
proof fn lemma_falls_to(m: Machine, words: Seq<u32>, pc: u32, n: int, single: spec_fn(FpuCall) -> u32)
    requires
        n >= 0,
        falls_through(m, words, pc, n, single),
    ensures
        interpreted(m, words, pc, n + 1, single).cpu.pc == addr_of(pc, n + 1),
        !interpreted(m, words, pc, n + 1, single).cpu.delay,
{
    assert(addr_of(pc, n).wrapping_add(4) == addr_of(pc, n + 1));
}

/// A block that ends because it is full leaves the machine as the
/// interpreter does, and leads where the interpreter goes on.
pub proof fn law_full_block_agrees(natives: Option<Seq<u8>>, b: Body, p: Plan, words: Seq<u32>, pc: u32, cell: usize, n: int, idle: bool, h: Host)
    requires
        b.drawn(natives, words, pc, cell, n),
        p.of(b, pc, cell, idle),
        b.stop is Full,
        forall|i: int| 0 <= i < n + 1 ==> #[trigger] falls_through(h.machine(), words, pc, i, h.k.single),
        forall|i: int| 0 <= i < n + 1 ==> !idle_read(#[trigger] words[i]),
    ensures
        ({
            let after = done_with(p.items@, p.items@.len() as int, h);
            let r = block_interpreted(h.machine(), words, pc, n, h.k.single);
            &&& stays(p.items@, p.items@.len() as int, h)
            &&& same_but_place(after.machine(), r)
            &&& leads_to(p.end, after) == r.cpu.pc
        }),
{
    lemma_full_shape(natives, b, p, words, pc, cell, n, idle);
    lemma_full_runs(natives, words, pc, n, p.items@, h);
}

proof fn lemma_full_runs(natives: Option<Seq<u8>>, words: Seq<u32>, pc: u32, n: int, items: Seq<Item>, h: Host)
    requires
        n >= 0,
        items == items_of(natives, words, pc, n + 1),
        forall|i: int| 0 <= i < n + 1 ==> !(#[trigger] turned(natives, words, pc, i) is Branch),
        forall|i: int| 0 <= i < n + 1 ==> #[trigger] falls_through(h.machine(), words, pc, i, h.k.single),
        forall|i: int| 0 <= i < n + 1 ==> !idle_read(#[trigger] words[i]),
    ensures
        ({
            let after = done_with(items, items.len() as int, h);
            let r = block_interpreted(h.machine(), words, pc, n, h.k.single);
            &&& stays(items, items.len() as int, h)
            &&& same_but_place(after.machine(), r)
            &&& r.cpu.pc == addr_of(pc, n + 1)
        }),
{
    law_straight_code_agrees(natives, words, pc, n + 1, h);
    assert(falls_through(h.machine(), words, pc, n, h.k.single));
    lemma_falls_to(h.machine(), words, pc, n, h.k.single);
}

/// Where a branch goes after its delay slot.
pub open spec fn goes_to(kind: BranchKind, h: Host, addr: u32) -> u32 {
    match kind {
        BranchKind::Jump(to) => to,
        BranchKind::JumpReg => low32(h.k.r.r14),
        BranchKind::Cond { target, .. } => if h.k.r.r13 != 0 {
            target
        } else {
            addr.wrapping_add(8)
        },
    }
}

/// A likely branch that is not taken, which skips its delay slot.
pub open spec fn skips(kind: BranchKind, h: Host) -> bool {
    kind matches BranchKind::Cond { likely: true, .. } && h.k.r.r13 == 0
}

/// A linking branch on its own link register, which is tested before the
/// link and not after it.
pub open spec fn links_itself(instr: u32) -> bool {
    opcode(instr) == 0x01 && rt(instr) >= 0x10 && rs(instr) == 31
}

/// The branch alone.
proof fn lemma_branch_alone(addr: u32, instr: u32, kind: BranchKind, h: Host, m: Machine)
    requires
        lower(addr, instr).to == Emitted::Branch(kind),
        same_but_place(h.machine(), m),
        m.cpu.gpr.len() == 32,
        !links_itself(instr),
    ensures
        ({
            let e = all_effect(lower(addr, instr).ops, 0, h);
            let b = m.placed_at(addr).completed(instr, h.k.single).0;
            &&& same_but_place(e.machine(), b)
            &&& b.cpu.delay == !skips(kind, e)
            &&& b.cpu.delay ==> b.cpu.pc == addr.wrapping_add(4) && b.cpu.next_pc == goes_to(kind, e, addr)
            &&& !b.cpu.delay ==> b.cpu.pc == addr.wrapping_add(8)
            &&& e.k.single == h.k.single
        }),
{
    let ops = lower(addr, instr).ops;
    let there = h.moved_to(place_at(addr));
    lemma_same_anywhere(h.machine(), m, place_at(addr));
    assert(there.machine() == m.placed_at(addr));
    lemma_ops_anywhere(ops, 0, h, place_at(addr));
    lemma_single_stays(ops, 0, h);
    law_branch_translation_agrees(addr, instr, there, kind);
    let e = all_effect(ops, 0, h);
    let t = all_effect(ops, 0, there);
    assert(t == e.moved_to(place_at(addr)));
    let b = Machine { cpu: resolved(t.k, kind, immediate(instr)), ..there.machine() };
    assert(m.placed_at(addr).completed(instr, h.k.single) == (b, Outcome::Done)) by {
        reveal(Machine::completed);
    }
    assert(moved_to(b.cpu, place_at(0)) == moved_to(e.k.c, place_at(0)));
}

proof fn lemma_branch_runs(natives: Option<Seq<u8>>, words: Seq<u32>, pc: u32, n: int, kind: BranchKind, h: Host)
    requires
        n >= 0,
        turned(natives, words, pc, n) == Emitted::Branch(kind),
        forall|i: int| 0 <= i < n ==> !(#[trigger] turned(natives, words, pc, i) is Branch),
        forall|i: int| 0 <= i < n ==> #[trigger] falls_through(h.machine(), words, pc, i, h.k.single),
        forall|i: int| 0 <= i < n ==> !idle_read(#[trigger] words[i]),
        h.k.c.gpr.len() == 32,
        !links_itself(words[n]),
    ensures
        ({
            let items = items_of(natives, words, pc, n + 1);
            let e = done_with(items, items.len() as int, h);
            let b = interpreted(h.machine(), words, pc, n + 1, h.k.single);
            let addr = addr_of(pc, n);
            &&& stays(items, items.len() as int, h)
            &&& same_but_place(e.machine(), b)
            &&& b.cpu.delay == !skips(kind, e)
            &&& b.cpu.delay ==> b.cpu.pc == addr.wrapping_add(4) && b.cpu.next_pc == goes_to(kind, e, addr)
            &&& !b.cpu.delay ==> b.cpu.pc == addr.wrapping_add(8)
            &&& e.k.single == h.k.single
        }),
{
    law_straight_code_agrees(natives, words, pc, n, h);
    let before = items_of(natives, words, pc, n);
    let mid = done_with(before, before.len() as int, h);
    let m = interpreted(h.machine(), words, pc, n, h.k.single);
    let addr = addr_of(pc, n);
    let ops = lower(addr, words[n]).ops;
    lemma_registers_stay(h.machine(), words, pc, n, h.k.single);
    assert(lower(addr, words[n]).to == Emitted::Branch(kind));
    lemma_branch_alone(addr, words[n], kind, mid, m);
    lemma_ops_done(ops, mid);
    let last = as_items(ops);
    assert(items_of(natives, words, pc, n + 1) == before + last);
    lemma_done_join(before, last, last.len() as int, h);
    lemma_stays_join(before, last, last.len() as int, h);
}

/// The delay slot.
proof fn lemma_slot_runs(natives: Option<Seq<u8>>, at: u32, slot: u32, retired: int, h: Host, b: Machine)
    requires
        same_but_place(h.machine(), b),
        !control_flow(slot),
        !idle_read(slot),
        machine_at(b, slot_place(b.cpu)).completed(slot, h.k.single).1 is Done,
    ensures
        ({
            let items = item(at, slot, emitted(natives, at, slot), retired);
            let after = done_with(items, items.len() as int, h);
            let r = machine_at(b, slot_place(b.cpu)).completed(slot, h.k.single).0;
            &&& stays(items, items.len() as int, h)
            &&& same_but_place(after.machine(), r)
            &&& after.k.r.r13 == h.k.r.r13 && after.k.r.r14 == h.k.r.r14
            &&& r.cpu.pc == b.cpu.next_pc
        }),
{
    let to = emitted(natives, at, slot);
    let single = h.k.single;
    law_branches_are_control_flow(at, slot);
    lemma_completed_anywhere(b, slot_place(b.cpu), slot, single);
    lemma_completed_anywhere(b, place_at(at), slot, single);
    assert(b.placed_at(at) == machine_at(b, place_at(at)));
    lemma_item_agrees(at, slot, to, retired, h, b);
    lemma_item_keeps(at, slot, to, retired, h);
    let plain = b.completed(slot, single).0;
    lemma_moved_is_same(plain, slot_place(b.cpu));
    lemma_moved_is_same(plain, place_at(at));
}

/// What a block that ends in a branch is made of.
proof fn lemma_branch_shape(natives: Option<Seq<u8>>, b: Body, p: Plan, words: Seq<u32>, pc: u32, cell: usize, n: int, idle: bool, kind: BranchKind)
    requires
        b.drawn(natives, words, pc, cell, n),
        p.of(b, pc, cell, idle),
        b.stop matches Stop::Branch { kind: k, .. } && k == kind,
    ensures
        n >= 0,
        turned(natives, words, pc, n) == Emitted::Branch(kind),
        p.items@ == items_of(natives, words, pc, n + 1) + slot_items(natives, kind,
            addr_of(pc, n),
            words[n + 1],
            cycles_of(words, pc, n + 1),
            cell,
        ),
        forall|h: Host| #[trigger] leads_to(p.end, h) == goes_to(kind, h, addr_of(pc, n)),
        forall|i: int| 0 <= i < n ==> !(#[trigger] turned(natives, words, pc, i) is Branch),
        !control_flow(words[n + 1]),
{
    assert forall|i: int| 0 <= i < n implies !(#[trigger] turned(natives, words, pc, i) is Branch) by {
        lemma_straight(natives, b, words, pc, cell, n, i);
    }
    law_branches_are_control_flow(addr_of(pc, n), words[n]);
}

/// A block that ends in a branch leaves the machine as the interpreter does
/// with the branch and its delay slot, and leads where the interpreter goes
/// on; a likely branch that is not taken leaves before the slot. Set apart
/// are a linking branch on its own link register and, as everywhere, a
/// 128-bit load into register zero.
pub proof fn law_branch_block_agrees(
    natives: Option<Seq<u8>>,
    b: Body,
    p: Plan,
    words: Seq<u32>,
    pc: u32,
    cell: usize,
    n: int,
    idle: bool,
    kind: BranchKind,
    h: Host,
)
    requires
        b.drawn(natives, words, pc, cell, n),
        p.of(b, pc, cell, idle),
        b.stop matches Stop::Branch { kind: k, .. } && k == kind,
        forall|i: int| 0 <= i < n ==> #[trigger] falls_through(h.machine(), words, pc, i, h.k.single),
        forall|i: int| 0 <= i < n ==> !idle_read(#[trigger] words[i]),
        !idle_read(words[n + 1]),
        !links_itself(words[n]),
        h.k.c.gpr.len() == 32,
        // The delay slot completes.
        ({
            let m = interpreted(h.machine(), words, pc, n + 1, h.k.single);
            m.cpu.delay ==> machine_at(m, slot_place(m.cpu)).completed(words[n + 1], h.k.single).1 is Done
        }),
    ensures
        ({
            let before = items_of(natives, words, pc, n + 1).len() as int;
            let e = done_with(p.items@, before, h);
            let after = done_with(p.items@, p.items@.len() as int, h);
            let r = block_interpreted(h.machine(), words, pc, n, h.k.single);
            if skips(kind, e) {
                &&& stays(p.items@, before, h)
                &&& e.leaves(p.items@[before])
                &&& p.items@[before] matches Item::LikelySkip { link, .. } && link.target == r.cpu.pc
                &&& same_but_place(e.machine(), r)
            } else {
                &&& stays(p.items@, p.items@.len() as int, h)
                &&& same_but_place(after.machine(), r)
                &&& leads_to(p.end, after) == r.cpu.pc
            }
        }),
{
    lemma_branch_shape(natives, b, p, words, pc, cell, n, idle, kind);
    lemma_branch_block_runs(natives, words, pc, n, kind, cell, p.items@, h);
}

proof fn lemma_branch_block_runs(natives: Option<Seq<u8>>, words: Seq<u32>, pc: u32, n: int, kind: BranchKind, cell: usize, items: Seq<Item>, h: Host)
    requires
        n >= 0,
        turned(natives, words, pc, n) == Emitted::Branch(kind),
        items == items_of(natives, words, pc, n + 1) + slot_items(natives, kind, addr_of(pc, n), words[n + 1], cycles_of(words, pc, n + 1), cell),
        forall|i: int| 0 <= i < n ==> !(#[trigger] turned(natives, words, pc, i) is Branch),
        forall|i: int| 0 <= i < n ==> #[trigger] falls_through(h.machine(), words, pc, i, h.k.single),
        forall|i: int| 0 <= i < n ==> !idle_read(#[trigger] words[i]),
        !idle_read(words[n + 1]),
        !control_flow(words[n + 1]),
        !links_itself(words[n]),
        h.k.c.gpr.len() == 32,
        ({
            let m = interpreted(h.machine(), words, pc, n + 1, h.k.single);
            m.cpu.delay ==> machine_at(m, slot_place(m.cpu)).completed(words[n + 1], h.k.single).1 is Done
        }),
    ensures
        ({
            let before = items_of(natives, words, pc, n + 1).len() as int;
            let e = done_with(items, before, h);
            let after = done_with(items, items.len() as int, h);
            let r = block_interpreted(h.machine(), words, pc, n, h.k.single);
            if skips(kind, e) {
                &&& stays(items, before, h)
                &&& e.leaves(items[before])
                &&& items[before] matches Item::LikelySkip { link, .. } && link.target == r.cpu.pc
                &&& same_but_place(e.machine(), r)
            } else {
                &&& stays(items, items.len() as int, h)
                &&& same_but_place(after.machine(), r)
                &&& goes_to(kind, after, addr_of(pc, n)) == r.cpu.pc
            }
        }),
{
    let head = items_of(natives, words, pc, n + 1);
    let addr = addr_of(pc, n);
    let at = addr.wrapping_add(4);
    let retired = cycles_of(words, pc, n + 1);
    let slot = slot_items(natives, kind, addr, words[n + 1], retired, cell);
    let m = interpreted(h.machine(), words, pc, n + 1, h.k.single);
    lemma_branch_runs(natives, words, pc, n, kind, h);
    lemma_done_prefix(head, slot, head.len() as int, h);
    lemma_stays_prefix(head, slot, head.len() as int, h);
    let e = done_with(head, head.len() as int, h);
    if skips(kind, e) {
        assert(items[head.len() as int] == slot[0]);
        assert(addr.wrapping_add(8) == at.wrapping_add(4));
    } else {
        lemma_slot_runs(natives, at, words[n + 1], retired + 1, e, m);
        lemma_slot_joins(natives, kind, addr, words[n + 1], retired, cell, e);
        lemma_done_join(head, slot, slot.len() as int, h);
        lemma_stays_join(head, slot, slot.len() as int, h);
    }
}

/// A likely branch that is taken goes on to its slot.
proof fn lemma_slot_joins(natives: Option<Seq<u8>>, kind: BranchKind, addr: u32, slot: u32, retired: int, cell: usize, e: Host)
    requires
        !skips(kind, e),
    ensures
        ({
            let at = addr.wrapping_add(4);
            let rest = item(at, slot, emitted(natives, at, slot), retired + 1);
            let all = slot_items(natives, kind, addr, slot, retired, cell);
            &&& done_with(all, all.len() as int, e) == done_with(rest, rest.len() as int, e)
            &&& stays(all, all.len() as int, e) == stays(rest, rest.len() as int, e)
        }),
{
    let at = addr.wrapping_add(4);
    let rest = item(at, slot, emitted(natives, at, slot), retired + 1);
    let all = slot_items(natives, kind, addr, slot, retired, cell);
    if kind matches BranchKind::Cond { likely: true, .. } {
        let skip = seq![all[0]];
        assert(all =~= skip + rest);
        reveal_with_fuel(done_with, 2);
        reveal_with_fuel(stays, 2);
        assert(done_with(skip, 1, e) == e);
        assert(stays(skip, 1, e));
        lemma_done_join(skip, rest, rest.len() as int, e);
        lemma_stays_join(skip, rest, rest.len() as int, e);
    } else {
        assert(all =~= rest);
    }
}

/// What changes the pc is never plain code.
proof fn lemma_control_is_not_plain(addr: u32, instr: u32)
    ensures
        control_flow(instr) ==> lower(addr, instr).to != Emitted::Plain,
{
    reveal(lower);
    reveal(special_ops);
    reveal(control_flow);
}

/// A block that ends in an interpreted instruction leaves the machine
/// exactly as the interpreter does, the pc included.
pub proof fn law_stored_block_agrees(natives: Option<Seq<u8>>, b: Body, p: Plan, words: Seq<u32>, pc: u32, cell: usize, n: int, idle: bool, h: Host)
    requires
        b.drawn(natives, words, pc, cell, n),
        p.of(b, pc, cell, idle),
        b.stop is Stored,
        forall|i: int| 0 <= i < n ==> #[trigger] falls_through(h.machine(), words, pc, i, h.k.single),
        forall|i: int| 0 <= i < n ==> !idle_read(#[trigger] words[i]),
    ensures
        ({
            let last = p.items@.len() - 1;
            let after = done_with(p.items@, p.items@.len() as int, h);
            &&& last >= 0 && stays(p.items@, last, h)
            &&& after.machine() == interpreted(h.machine(), words, pc, n + 1, h.k.single)
            &&& leads_to(p.end, after) == after.k.c.pc
        }),
{
    lemma_stored_shape(natives, b, p, words, pc, cell, n, idle);
    lemma_stored_runs(natives, words, pc, n, p.items@, h);
}

proof fn lemma_stored_shape(natives: Option<Seq<u8>>, b: Body, p: Plan, words: Seq<u32>, pc: u32, cell: usize, n: int, idle: bool)
    requires
        b.drawn(natives, words, pc, cell, n),
        p.of(b, pc, cell, idle),
        b.stop is Stored,
    ensures
        n >= 0,
        p.items@ == items_of(natives, words, pc, n + 1),
        turned(natives, words, pc, n) is Interp,
        p.end is Stored,
        forall|i: int| 0 <= i < n ==> !(#[trigger] turned(natives, words, pc, i) is Branch),
{
    assert forall|i: int| 0 <= i < n implies !(#[trigger] turned(natives, words, pc, i) is Branch) by {
        lemma_straight(natives, b, words, pc, cell, n, i);
    }
    lemma_control_is_not_plain(addr_of(pc, n), words[n]);
}

proof fn lemma_stored_runs(natives: Option<Seq<u8>>, words: Seq<u32>, pc: u32, n: int, items: Seq<Item>, h: Host)
    requires
        n >= 0,
        items == items_of(natives, words, pc, n + 1),
        turned(natives, words, pc, n) is Interp,
        forall|i: int| 0 <= i < n ==> !(#[trigger] turned(natives, words, pc, i) is Branch),
        forall|i: int| 0 <= i < n ==> #[trigger] falls_through(h.machine(), words, pc, i, h.k.single),
        forall|i: int| 0 <= i < n ==> !idle_read(#[trigger] words[i]),
    ensures
        items.len() >= 1,
        stays(items, items.len() - 1, h),
        done_with(items, items.len() as int, h).machine() == interpreted(h.machine(), words, pc, n + 1, h.k.single),
{
    law_straight_code_agrees(natives, words, pc, n, h);
    let before = items_of(natives, words, pc, n);
    let mid = done_with(before, before.len() as int, h);
    let m = interpreted(h.machine(), words, pc, n, h.k.single);
    let addr = addr_of(pc, n);
    let last = item(addr, words[n], turned(natives, words, pc, n), cycles_of(words, pc, n + 1));
    assert(last.len() == 1);
    assert(items == before + last);
    lemma_done_prefix(before, last, before.len() as int, h);
    lemma_stays_prefix(before, last, before.len() as int, h);
    assert(items[before.len() as int] == last[0]);
    lemma_same_anywhere(mid.machine(), m, place_at(addr));
    assert(mid.machine().placed_at(addr) == m.placed_at(addr));
}

/// A step outside a delay slot, with no interrupt due, is its instruction
/// run in place after the fetch.
pub proof fn law_steps_run_in_place(m: Machine)
    requires
        !m.cpu.delay,
        m.cpu.pc != 0,
        m.cpu.next_pc == m.cpu.pc.wrapping_add(4),
        !interrupted(m.cpu.cop0, m.int0(), m.int1()),
        m.fits(m.cpu.pc, 4),
    ensures
        m.stepped() == (Machine { bus: m.after_read(m.cpu.pc), ..m }).placed_at(m.cpu.pc).executed(low32(m.value(m.cpu.pc, 4))),
{
    reveal(Machine::stepped);
    assert(m.begun() == (Machine { bus: m.after_read(m.cpu.pc), ..m }).placed_at(m.cpu.pc));
}

} // verus!
