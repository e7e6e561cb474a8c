//! What the dispatcher does next: step the interpreter, run a block that
//! exists, or have one compiled.

use vstd::prelude::*;
use crate::bus::marks::law_accesses_keep_code_marks;
use crate::bus::memory::{MemModel, RAM_SIZE};
use crate::bus::regs::BusModel;
use crate::bus::Bus;
use crate::ee::cop0::interrupted;
use crate::ee::cpu::{relative, Cpu, Outcome};
use super::block::{addr_of, draw, ends_at, last, law_exits_take_cells_in_order, settle, Body, Plan, Stop, BLOCK_WORDS};
use super::cache::{hit_any, lemma_pushed, up, vacated, Block, Counts, Jit, LINK_CELLS, PAGES};
use super::fetch::{fetch_block, fetched, fetched_from, idle_branch, is_idle_loop, nops};
use super::marks::law_steps_keep_code_marks;

verus! {

/// Room that a block may need: with less left, the cache starts over.
pub const BLOCK_BYTES: u64 = 0x1_0000;

/// What the host has to do.
pub enum Action {
    /// Nothing: the interpreter ran one instruction, one cycle.
    Stepped(Outcome),
    /// A jump to address zero.
    Null,
    /// Run the block entered here.
    Run(u64),
    /// Assemble this block, install it and run it.
    Compile(Plan),
}

/// Every page of a valid block is marked on the bus, so that writes to it
/// are noted.
pub open spec fn marked(j: &Jit, m: BusModel) -> bool {
    forall|i: int, p: int|
        0 <= i < j.blocks@.len() && j.blocks@[i].valid && #[trigger] j.blocks@[i].covers(p) && 0 <= p < PAGES
            ==> m.mem.code_pages[p]
}

/// The bus with every mark and note forgotten.
pub open spec fn forgotten(m: BusModel) -> BusModel {
    BusModel {
        mem: MemModel { code_pages: Seq::new(PAGES as nat, |p: int| false), dirty: Seq::empty(), ..m.mem },
        ..m
    }
}

/// The bus with its notes served: the pages that they vacate are unmarked.
pub open spec fn served(m: BusModel, blocks: Seq<Block>) -> BusModel {
    BusModel {
        mem: MemModel {
            code_pages: Seq::new(
                PAGES as nat,
                |p: int| m.mem.code_pages[p] && !vacated(blocks, m.mem.dirty, p),
            ),
            dirty: Seq::empty(),
            ..m.mem
        },
        ..m
    }
}

/// The bus with the pages of a block marked.
pub open spec fn covered(m: BusModel, b: Block) -> BusModel {
    BusModel {
        mem: MemModel {
            code_pages: Seq::new(PAGES as nat, |p: int| m.mem.code_pages[p] || b.covers(p)),
            ..m.mem
        },
        ..m
    }
}

impl Jit {
    /// Drop every block and forget every mark.
    pub fn flush(&mut self, bus: &mut Bus)
        requires
            old(self).wf(),
            old(bus).wf(),
        ensures
            final(self).wf(),
            final(bus).wf(),
            final(self).emptied(old(self)),
            final(bus).model() == forgotten(old(bus).model()),
            marked(final(self), final(bus).model()),
    {
        self.drop_all();
        bus.forget_code();
    }

    /// Drop the blocks whose code was written, and unmark the pages that
    /// hold none any more.
    pub fn invalidate_dirty(&mut self, bus: &mut Bus)
        requires
            old(self).wf(),
            old(bus).wf(),
            marked(old(self), old(bus).model()),
        ensures
            final(self).wf(),
            final(bus).wf(),
            final(bus).model() == served(old(bus).model(), old(self).blocks@),
            marked(final(self), final(bus).model()),
            final(self).arena == old(self).arena,
            final(self).cells_used == old(self).cells_used,
            final(self).targets == old(self).targets,
            final(self).natives == old(self).natives,
            final(self).counted(old(self)),
            final(self).blocks@.len() == old(self).blocks@.len(),
            forall|k: int|
                0 <= k < old(self).blocks@.len() ==> {
                    let (b, o) = (#[trigger] final(self).blocks@[k], old(self).blocks@[k]);
                    b.same(Block {
                        valid: o.valid && !hit_any(o, old(bus).model().mem.dirty),
                        ..o
                    })
                },
    {
        proof {
            bus.lemma_code_pages();
        }
        let dirty = bus.take_code_writes();
        let ghost taken = bus.model();
        let cleared = self.invalidate(&dirty);
        let mut i: usize = 0;
        proof {
            assert forall|k: int, p: int|
                0 <= k < self.blocks@.len() && self.blocks@[k].valid && #[trigger] self.blocks@[k].covers(p) && 0 <= p
                    < PAGES implies bus.model().mem.code_pages[p] by {
                assert(old(self).blocks@[k].covers(p));
            }
        }
        while i < cleared.len()
            invariant
                bus.wf(),
                i <= cleared@.len(),
                marked(self, bus.model()),
                bus.model().mem.code_pages.len() == PAGES,
                taken.mem.code_pages.len() == PAGES,
                bus.model() == (BusModel {
                    mem: MemModel { code_pages: bus.model().mem.code_pages, ..taken.mem },
                    ..taken
                }),
                forall|p: int|
                    0 <= p < PAGES ==> #[trigger] bus.model().mem.code_pages[p] == (taken.mem.code_pages[p]
                        && !cleared@.take(i as int).contains(p as usize)),
                forall|q: int| 0 <= q < cleared@.len() ==> #[trigger] cleared@[q] < PAGES && self.vacant(cleared@[q] as int),
            decreases cleared@.len() - i,
        {
            let p: usize = cleared[i];
            assert(self.vacant(cleared@[i as int] as int));
            bus.mark_code_page(p, false);
            proof {
                let (s, t) = (cleared@.take(i as int), cleared@.take(i + 1));
                assert(t =~= s.push(p));
                assert forall|q: usize| #[trigger] t.contains(q) == (s.contains(q) || q == p) by {
                    lemma_pushed(s, p, q);
                }
            }
            i = i + 1;
        }
        proof {
            assert(cleared@.take(i as int) =~= cleared@);
            let to = served(old(bus).model(), old(self).blocks@);
            assert forall|p: int| 0 <= p < PAGES implies bus.model().mem.code_pages[p] == #[trigger] to.mem.code_pages[p] by {
                assert(cleared@.contains(p as usize) == vacated(old(self).blocks@, dirty@, p));
            }
            assert(bus.model().mem.code_pages =~= to.mem.code_pages);
        }
    }

    /// Serve what the bus asks of the cache: a flush, or the notes of
    /// written code.
    pub fn prepare(&mut self, bus: &mut Bus)
        requires
            old(self).wf(),
            old(bus).wf(),
            marked(old(self), old(bus).model()),
        ensures
            final(self).wf(),
            final(bus).wf(),
            final(bus).model() == (BusModel {
                flush: false,
                ..if old(bus).model().flush {
                    forgotten(old(bus).model())
                } else {
                    served(old(bus).model(), old(self).blocks@)
                }
            }),
            marked(final(self), final(bus).model()),
            old(bus).model().flush ==> final(self).emptied(old(self)),
            !old(bus).model().flush ==> {
                &&& final(self).arena == old(self).arena
                &&& final(self).cells_used == old(self).cells_used
                &&& final(self).targets == old(self).targets
                &&& final(self).natives == old(self).natives
                &&& final(self).counted(old(self))
                &&& final(self).blocks@.len() == old(self).blocks@.len()
                &&& forall|k: int|
                    0 <= k < old(self).blocks@.len() ==> {
                        let (b, o) = (#[trigger] final(self).blocks@[k], old(self).blocks@[k]);
                        b.same(Block { valid: o.valid && !hit_any(o, old(bus).model().mem.dirty), ..o })
                    }
            },
    {
        if bus.take_flush() {
            self.flush(bus);
        } else {
            self.invalidate_dirty(bus);
        }
    }

    /// The arena or the link cells run short.
    pub open spec fn full(&self) -> bool {
        self.arena.size - self.arena.used < BLOCK_BYTES || self.cells_used + 256 > LINK_CELLS
    }

    /// The cache starts over when the arena or the link cells run short.
    pub fn make_room(&mut self, bus: &mut Bus)
        requires
            old(self).wf(),
            old(bus).wf(),
            marked(old(self), old(bus).model()),
        ensures
            final(self).wf(),
            final(bus).wf(),
            marked(final(self), final(bus).model()),
            old(self).full() ==> final(self).emptied(old(self)) && final(bus).model() == forgotten(old(bus).model()),
            !old(self).full() ==> *final(self) == *old(self) && *final(bus) == *old(bus),
    {
        if self.arena.remaining() < BLOCK_BYTES || self.cells_used + 256 > LINK_CELLS {
            self.flush(bus);
        }
    }

    /// Plan the block at `pc`.
    pub fn plan(&self, bus: &mut Bus, pc: u32) -> (p: Plan)
        requires
            self.wf(),
            old(bus).wf(),
            pc % 4 == 0,
            self.cells_used + 256 <= LINK_CELLS,
        ensures
            final(bus).wf(),
            planned(self.natives@, old(bus).model(), final(bus).model(), pc, self.cells_used, p),
            final(bus).model().mem.code_pages == old(bus).model().mem.code_pages,
            p.links@.len() <= 3,
    {
        let words = fetch_block(bus, pc);
        let ghost fetched = bus.model();
        assert(ends_at(words@, pc, words@.len() - 2));
        let b = draw(&self.natives, &words, pc, self.cells_used);
        let ghost n = choose|n: int| b.drawn(self.natives@, words@, pc, self.cells_used, n);
        let idle = match b.stop {
            Stop::Branch { addr, instr, slot, .. } => is_idle_loop(bus, addr, instr, slot),
            _ => false,
        };
        let ghost body = b;
        assert(b.drawn(self.natives@, words@, pc, self.cells_used, n));
        let p = settle(b, pc, self.cells_used, idle);
        proof {
            reveal(planned);
            assert((idle, bus.model()) == idled(fetched, body.stop));
            let k = words@.len() - 2;
            assert(k + 1 == words@.len() - 1);
            assert(n == k) by {
                if n < k {
                    assert(!last(words@, pc, n));
                } else if k < n {
                    assert(!last(words@, pc, k));
                }
            }
            assert((words@, fetched) == fetched_from(old(bus).model(), pc, n + 1));
            assert(planned_as(self.natives@, old(bus).model(), bus.model(), pc, self.cells_used, p, body, n));
            lemma_fetching_keeps_marks(old(bus).model(), pc, n + 1);
            if let Stop::Branch { addr, instr, .. } = body.stop {
                lemma_nops_keep_marks(fetched, relative(addr.wrapping_add(4), instr % 0x1_0000), addr);
            }
            law_exits_take_cells_in_order(body.links@, body.stop, idle, self.cells_used);
        }
        p
    }

    /// Decide what comes next, once the cache is prepared: the interpreter
    /// steps when the CPU is mid-branch or has an interrupt to take.
    pub fn decide(&mut self, cpu: &mut Cpu, bus: &mut Bus) -> (r: Action)
        requires
            old(self).wf(),
            old(cpu).wf(),
            old(bus).wf(),
            marked(old(self), old(bus).model()),
            old(cpu).pc % 4 == 0,
        ensures
            final(self).wf(),
            final(cpu).wf(),
            final(bus).wf(),
            marked(final(self), final(bus).model()),
            ({
                let m = old(cpu).with(*old(bus));
                let c = old(cpu).model();
                let run = (Jit { blocks_run: up(old(self).blocks_run, 1), ..*old(self) });
                if c.delay || interrupted(c.cop0, m.int0(), m.int1()) {
                    &&& r matches Action::Stepped(o) && (final(cpu).with(*final(bus)), o) == m.stepped()
                    &&& *final(self) == (Jit { interp_steps: up(old(self).interp_steps, 1), ..*old(self) })
                } else {
                    &&& final(cpu).model() == old(cpu).model()
                    &&& if c.pc == 0 {
                        r is Null && final(bus).model() == old(bus).model() && *final(self) == run
                    } else {
                        match old(self).at(c.pc) {
                            Some(i) => {
                                &&& r matches Action::Run(entry) && entry == old(self).blocks@[i].entry
                                &&& final(bus).model() == old(bus).model()
                                &&& *final(self) == run
                            },
                            None => {
                                &&& r is Compile
                                &&& final(self).at(c.pc) is None
                                &&& final(self).cells_used + 256 <= LINK_CELLS
                                &&& old(self).full() ==> final(self).emptied(&run)
                                &&& !old(self).full() ==> *final(self) == run
                                &&& planned(
                                    final(self).natives@,
                                    if old(self).full() {
                                        forgotten(old(bus).model())
                                    } else {
                                        old(bus).model()
                                    },
                                    final(bus).model(),
                                    c.pc,
                                    final(self).cells_used,
                                    r->Compile_0,
                                )
                            },
                        }
                    }
                }
            }),
    {
        if cpu.next_is_delay || cpu.interrupt_pending(bus) {
            proof {
                law_steps_keep_code_marks(cpu.with(*bus), 0);
            }
            let o = cpu.step(bus);
            self.interp_steps = self.interp_steps.saturating_add(1);
            return Action::Stepped(o);
        }
        self.blocks_run = self.blocks_run.saturating_add(1);
        let pc: u32 = cpu.pc;
        if pc == 0 {
            return Action::Null;
        }
        match self.find(pc) {
            Some(entry) => Action::Run(entry),
            None => {
                self.make_room(bus);
                Action::Compile(self.plan(bus, pc))
            },
        }
    }

    /// A planned block was assembled: record it with the RAM its
    /// instructions lie in, for invalidation on write. Other blocks are
    /// never invalidated.
    pub fn install_plan(&mut self, bus: &mut Bus, p: &Plan, len: u64, body_off: u64, slow_offs: &Vec<u64>) -> (entry: u64)
        requires
            old(self).wf(),
            old(bus).wf(),
            marked(old(self), old(bus).model()),
            old(self).at(p.pc) is None,
            0 < p.count <= BLOCK_WORDS,
            0 < len <= old(self).arena.size - old(self).arena.used,
            body_off <= len,
            slow_offs@.len() == p.links@.len(),
            forall|k: int| 0 <= k < slow_offs@.len() ==> #[trigger] slow_offs@[k] <= len,
            old(self).cells_used + p.links@.len() <= LINK_CELLS,
        ensures
            final(self).wf(),
            final(bus).wf(),
            marked(final(self), final(bus).model()),
            final(bus).model() == covered(
                old(bus).model(),
                final(self).blocks@[old(self).blocks@.len() as int],
            ),
            entry == old(self).arena.base + old(self).arena.used,
            final(self).same_blocks(old(self)),
            final(self).blocks@.len() == old(self).blocks@.len() + 1,
            ({
                let b = final(self).blocks@[old(self).blocks@.len() as int];
                let first = old(bus).model().phys(p.pc);
                let last = old(bus).model().phys(p.pc.wrapping_add(((p.count - 1) * 4) as u32));
                &&& b.pc == p.pc && b.entry == entry && b.body == entry + body_off && b.valid
                &&& b.phys == (if first < RAM_SIZE && last + 4 <= RAM_SIZE && first < last + 4 {
                    Some((first, (last + 4) as u32))
                } else {
                    None
                })
            }),
            final(self).at(p.pc) == Some(old(self).blocks@.len() as int),
            forall|q: u32| q != p.pc ==> final(self).at(q) == #[trigger] old(self).at(q),
            final(self).cells_used == old(self).cells_used + p.links@.len(),
            final(self).natives == old(self).natives,
            final(self).counts() == (Counts { compiled: up(old(self).blocks_compiled, 1), ..old(self).counts() }),
            final(self).linked(
                old(self).cells_used as int,
                p.links@,
                |k: int| (entry + slow_offs@[k]) as u64,
                p.links@.len() as int,
            ),
    {
        let last: u32 = p.pc.wrapping_add((p.count - 1) * 4);
        let ghost was = *self;
        let phys: Option<(u32, u32)> = match (bus.ram_phys_of(p.pc), bus.ram_phys_of(last)) {
            (Some(s), Some(e)) => if (e as usize) + 4 <= RAM_SIZE && s < e + 4 {
                Some((s, e + 4))
            } else {
                None
            },
            _ => None,
        };
        let entry: u64 = self.install(p.pc, phys, len, body_off, &p.links, slow_offs);
        let ghost done = *self;
        let ghost idx = was.blocks@.len() as int;
        proof {
            bus.lemma_code_pages();
        }
        if let Some((s, e)) = phys {
            let from: usize = (s / 4096) as usize;
            let to: usize = ((e - 1) / 4096) as usize;
            let mut page: usize = from;
            let ghost before = bus.model();
            while page <= to
                invariant
                    bus.wf(),
                    from <= page <= to + 1,
                    to < PAGES,
                    before.mem.code_pages.len() == PAGES,
                    bus.model().mem.code_pages.len() == PAGES,
                    bus.model() == (BusModel {
                        mem: MemModel { code_pages: bus.model().mem.code_pages, ..before.mem },
                        ..before
                    }),
                    forall|q: int|
                        0 <= q < PAGES ==> #[trigger] bus.model().mem.code_pages[q] == (if from <= q < page {
                            true
                        } else {
                            before.mem.code_pages[q]
                        }),
                decreases to + 1 - page,
            {
                bus.mark_code_page(page, true);
                page = page + 1;
            }
        }
        proof {
            assert(bus.model().mem.code_pages =~= covered(old(bus).model(), self.blocks@[idx]).mem.code_pages);
            assert forall|i: int, q: int|
                0 <= i < self.blocks@.len() && self.blocks@[i].valid && #[trigger] self.blocks@[i].covers(q) && 0 <= q
                    < PAGES implies bus.model().mem.code_pages[q] by {
                if i < idx {
                    assert(self.blocks@[i].same(was.blocks@[i]));
                    assert(was.blocks@[i].covers(q));
                }
            }
        }
        entry
    }

    /// A block left the interpreter's delay-slot state behind: it finishes
    /// the branch, one instruction at a time.
    pub fn finish_branch(&mut self, cpu: &mut Cpu, bus: &mut Bus) -> (r: Option<Outcome>)
        requires
            old(self).wf(),
            old(cpu).wf(),
            old(bus).wf(),
            marked(old(self), old(bus).model()),
        ensures
            final(self).wf(),
            final(cpu).wf(),
            final(bus).wf(),
            marked(final(self), final(bus).model()),
            match r {
                Some(o) => {
                    &&& old(cpu).next_is_delay
                    &&& (final(cpu).with(*final(bus)), o) == old(cpu).with(*old(bus)).stepped()
                    &&& *final(self) == (Jit { interp_steps: up(old(self).interp_steps, 1), ..*old(self) })
                },
                None => {
                    &&& !old(cpu).next_is_delay
                    &&& final(cpu).with(*final(bus)) == old(cpu).with(*old(bus))
                    &&& *final(self) == *old(self)
                },
            },
    {
        proof {
            law_steps_keep_code_marks(cpu.with(*bus), 0);
        }
        if !cpu.next_is_delay {
            return None;
        }
        self.interp_steps = self.interp_steps.saturating_add(1);
        Some(cpu.step(bus))
    }
}

/// Whether a block's branch is the kernel's idle loop, and the bus after
/// looking.
pub open spec fn idled(m: BusModel, stop: Stop) -> (bool, BusModel) {
    match stop {
        Stop::Branch { addr, instr, slot, .. } => {
            if idle_branch(addr, instr, slot) {
                nops(m, relative(addr.wrapping_add(4), instr % 0x1_0000), addr)
            } else {
                (false, m)
            }
        },
        _ => (false, m),
    }
}

/// Looking at code moves no mark.
proof fn lemma_fetching_keeps_marks(m: BusModel, pc: u32, n: int)
    ensures
        fetched_from(m, pc, n).1.mem.code_pages == m.mem.code_pages,
    decreases n,
{
    if n > 0 {
        lemma_fetching_keeps_marks(m, pc, n - 1);
        let before = fetched_from(m, pc, n - 1).1;
        lemma_fetch_keeps_marks(before, addr_of(pc, n - 1));
        lemma_fetch_keeps_marks(fetched(before, addr_of(pc, n - 1)).1, addr_of(pc, n));
    }
}

proof fn lemma_fetch_keeps_marks(m: BusModel, a: u32)
    ensures
        fetched(m, a).1.mem.code_pages == m.mem.code_pages,
{
    reveal(fetched);
    law_accesses_keep_code_marks(m, m.phys(a), 4, 0);
}

proof fn lemma_nops_keep_marks(m: BusModel, target: u32, addr: u32)
    ensures
        nops(m, target, addr).1.mem.code_pages == m.mem.code_pages,
    decreases addr - target,
{
    if target < addr {
        let (w, after) = fetched(m, target);
        lemma_fetch_keeps_marks(m, target);
        if w == 0 && addr - target > 4 {
            lemma_nops_keep_marks(after, (target + 4) as u32, addr);
        }
    }
}

/// A plan for the block at `pc`, drawn from what the bus holds there: the
/// block's words and the one after them.
#[verifier::opaque]
pub open spec fn planned(natives: Option<Seq<u8>>, m: BusModel, after: BusModel, pc: u32, cell: usize, p: Plan) -> bool {
    exists|b: Body, n: int| #[trigger] planned_as(natives, m, after, pc, cell, p, b, n)
}

/// The plan is of this body, whose last instruction is the `n`-th.
pub open spec fn planned_as(
    natives: Option<Seq<u8>>,
    m: BusModel,
    after: BusModel,
    pc: u32,
    cell: usize,
    p: Plan,
    b: Body,
    n: int,
) -> bool {
    let (words, seen) = fetched_from(m, pc, n + 1);
    b.drawn(natives, words, pc, cell, n) && idled(seen, b.stop).1 == after && p.of(b, pc, cell, idled(seen, b.stop).0)
}

} // verus!
