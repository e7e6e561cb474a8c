//! The block cache: which blocks exist, where they stand, how they are
//! linked and when they are dropped.

use vstd::prelude::*;
use std::collections::HashMap;
use super::arena::{rounded, Arena, ARENA_BYTES};
use super::block::Link;
use super::native::Natives;

verus! {

broadcast use vstd::std_specs::hash::group_hash_axioms;

/// Direct-mapped lookup entries (indexed by pc / 4).
pub const LOOKUP_ENTRIES: usize = 0x1_0000;

/// Link cells (one per constant-target exit); the cache is flushed when
/// they run out.
pub const LINK_CELLS: usize = 0x10_0000;

/// RAM pages of 4 KiB.
pub const PAGES: usize = 8192;

pub struct Block {
    pub pc: u32,
    pub entry: u64,
    /// Address of the body (after the prologue): where linked jumps land.
    pub body: u64,
    /// Physical byte range of the block's instructions (RAM blocks).
    pub phys: Option<(u32, u32)>,
    /// Link cells pointing at this block's body.
    pub incoming: Vec<usize>,
    pub valid: bool,
}

pub struct Jit {
    pub arena: Arena,
    pub blocks: Vec<Block>,
    pub by_pc: HashMap<u32, u32>,
    /// pc / 4 -> block index + 1 (0 = empty); verified against `blocks`.
    pub lookup: Vec<u32>,
    /// RAM page -> blocks with instructions on it.
    pub page_blocks: Vec<Vec<u32>>,
    /// Link cells: jump targets read by block exits.
    pub cells: Vec<u64>,
    /// Each cell's own slow path, restored when its target goes away.
    pub cell_slow: Vec<u64>,
    pub cells_used: usize,
    /// Cells waiting for a block at this pc to be compiled.
    pub pending_links: HashMap<u32, Vec<usize>>,
    /// Where each cell in use leads.
    pub targets: Ghost<Seq<u32>>,
    /// What is recompiled at all.
    pub natives: Natives,
    pub blocks_compiled: u64,
    pub blocks_invalidated: u64,
    pub blocks_run: u64,
    pub interp_steps: u64,
}

/// What the cache counted so far.
pub struct Counts {
    pub compiled: u64,
    pub invalidated: u64,
    pub run: u64,
    pub steps: u64,
}

/// A count `n` later, which stays at its maximum.
pub open spec fn up(count: u64, n: int) -> u64 {
    if count + n <= u64::MAX {
        (count + n) as u64
    } else {
        u64::MAX
    }
}

/// How many blocks are valid.
pub open spec fn valid_among(blocks: Seq<Block>) -> int
    decreases blocks.len(),
{
    if blocks.len() == 0 {
        0
    } else {
        valid_among(blocks.drop_last()) + (if blocks.last().valid {
            1int
        } else {
            0
        })
    }
}

/// With one block less, one less is valid.
proof fn lemma_one_less(was: Seq<Block>, now: Seq<Block>, i: int)
    requires
        was.len() == now.len(),
        0 <= i < was.len(),
        was[i].valid,
        !now[i].valid,
        forall|k: int| 0 <= k < was.len() && k != i ==> (#[trigger] now[k]).valid == was[k].valid,
    ensures
        valid_among(now) == valid_among(was) - 1,
    decreases was.len(),
{
    if i == was.len() - 1 {
        lemma_as_many(was.drop_last(), now.drop_last());
    } else {
        lemma_one_less(was.drop_last(), now.drop_last(), i);
        assert(now.last() == now[now.len() - 1]);
    }
}

proof fn lemma_as_many(was: Seq<Block>, now: Seq<Block>)
    requires
        was.len() == now.len(),
        forall|k: int| 0 <= k < was.len() ==> (#[trigger] now[k]).valid == was[k].valid,
    ensures
        valid_among(now) == valid_among(was),
    decreases was.len(),
{
    if was.len() > 0 {
        lemma_as_many(was.drop_last(), now.drop_last());
        assert(now.last() == now[now.len() - 1]);
    }
}

impl Block {
    /// The same block but for what is linked to it.
    pub open spec fn same(self, b: Block) -> bool {
        &&& self.pc == b.pc
        &&& self.entry == b.entry
        &&& self.body == b.body
        &&& self.phys == b.phys
        &&& self.valid == b.valid
    }

    /// The range is of RAM.
    pub open spec fn range_ok(self) -> bool {
        self.phys matches Some((s, e)) ==> s < e <= PAGES * 4096
    }

    /// The block covers a page of RAM.
    pub open spec fn covers(self, page: int) -> bool {
        self.phys matches Some((s, e)) && s / 4096 <= page <= (e - 1) / 4096
    }

    /// The block's code holds a byte of the doubleword at `a`.
    pub open spec fn hit(self, a: u32) -> bool {
        self.phys matches Some((s, e)) && s < a + 8 && a < e
    }
}

impl Jit {
    /// The valid block at `pc`.
    pub open spec fn at(&self, pc: u32) -> Option<int> {
        if self.by_pc@.contains_key(pc) {
            Some(self.by_pc@[pc] as int)
        } else {
            None
        }
    }

    pub open spec fn counts(&self) -> Counts {
        Counts {
            compiled: self.blocks_compiled,
            invalidated: self.blocks_invalidated,
            run: self.blocks_run,
            steps: self.interp_steps,
        }
    }

    /// The cache of `was` with every block dropped.
    pub open spec fn emptied(&self, was: &Jit) -> bool {
        &&& self.blocks@.len() == 0
        &&& self.cells_used == 0
        &&& forall|pc: u32| self.at(pc) is None
        &&& self.arena == (Arena { used: 0, ..was.arena })
        &&& self.natives == was.natives
        &&& self.counts() == was.counts()
    }

    pub open spec fn sizes_ok(&self) -> bool {
        &&& self.arena.wf()
        &&& self.arena.size <= ARENA_BYTES
        &&& self.arena.size % 16 == 0
        &&& self.lookup@.len() == LOOKUP_ENTRIES
        &&& self.page_blocks@.len() == PAGES
        &&& self.cells@.len() == LINK_CELLS
        &&& self.cell_slow@.len() == LINK_CELLS
        &&& self.targets@.len() == LINK_CELLS
        &&& self.cells_used <= LINK_CELLS
        &&& self.blocks@.len() * 16 <= self.arena.used
    }

    /// There is one valid block for each pc that has any, and the maps find
    /// exactly those.
    pub open spec fn blocks_ok(&self) -> bool {
        &&& forall|pc: u32| #[trigger]
            self.by_pc@.contains_key(pc) ==> {
                let i = self.by_pc@[pc] as int;
                i < self.blocks@.len() && self.blocks@[i].valid && self.blocks@[i].pc == pc
            }
        &&& forall|i: int|
            0 <= i < self.blocks@.len() && (#[trigger] self.blocks@[i]).valid ==> {
                self.by_pc@.contains_key(self.blocks@[i].pc) && self.by_pc@[self.blocks@[i].pc] == i
            }
        &&& forall|k: int| 0 <= k < self.lookup@.len() ==> #[trigger] self.lookup@[k] <= self.blocks@.len()
    }

    /// Every page of a valid block lists it, and only its pages do.
    pub open spec fn pages_ok(&self) -> bool {
        &&& forall|i: int| 0 <= i < self.blocks@.len() ==> (#[trigger] self.blocks@[i]).range_ok()
        &&& forall|p: int, j: int|
            0 <= p < PAGES && 0 <= j < self.page_blocks@[p]@.len() ==> #[trigger] self.page_blocks@[p]@[j]
                < self.blocks@.len() && self.blocks@[self.page_blocks@[p]@[j] as int].covers(p)
        &&& forall|i: int, p: int|
            0 <= i < self.blocks@.len() && self.blocks@[i].valid && #[trigger] self.blocks@[i].covers(p) && 0 <= p < PAGES
                ==> self.page_blocks@[p]@.contains(i as u32)
    }

    /// What a link cell holds: the body of the valid block at its target, or
    /// its own slow path where there is none.
    pub open spec fn link(&self, c: int) -> u64 {
        match self.at(self.targets@[c]) {
            Some(i) => self.blocks@[i].body,
            None => self.cell_slow@[c],
        }
    }

    /// Every cell in use is linked, and recorded with the block it is linked
    /// to or with the pc that it waits for.
    pub open spec fn links_ok(&self) -> bool {
        &&& forall|c: int| 0 <= c < self.cells_used ==> #[trigger] self.cells@[c] == self.link(c)
        &&& forall|c: int|
            0 <= c < self.cells_used ==> match self.at(#[trigger] self.targets@[c]) {
                Some(i) => self.blocks@[i].incoming@.contains(c as usize),
                None => self.pending_links@.contains_key(self.targets@[c])
                    && self.pending_links@[self.targets@[c]]@.contains(c as usize),
            }
        &&& forall|i: int, j: int|
            0 <= i < self.blocks@.len() && self.blocks@[i].valid && 0 <= j < self.blocks@[i].incoming@.len() ==> {
                let c = #[trigger] self.blocks@[i].incoming@[j];
                c < self.cells_used && self.targets@[c as int] == self.blocks@[i].pc
            }
        &&& forall|pc: u32, j: int|
            self.pending_links@.contains_key(pc) && 0 <= j < self.pending_links@[pc]@.len() ==> {
                let c = #[trigger] self.pending_links@[pc]@[j];
                c < self.cells_used && self.targets@[c as int] == pc
            }
        &&& forall|pc: u32| #[trigger] self.pending_links@.contains_key(pc) ==> !self.by_pc@.contains_key(pc)
    }

    pub open spec fn wf(&self) -> bool {
        &&& self.sizes_ok()
        &&& self.blocks_ok()
        &&& self.pages_ok()
        &&& self.links_ok()
    }

    pub fn new(arena: Arena) -> (j: Self)
        requires
            arena.wf(),
            arena.size <= ARENA_BYTES,
            arena.size % 16 == 0,
            arena.used == 0,
        ensures
            j.wf(),
            j.blocks@.len() == 0,
            j.cells_used == 0,
            forall|pc: u32| j.at(pc) is None,
            j.arena == arena,
            j.natives@ is None,
            j.counts() == (Counts { compiled: 0, invalidated: 0, run: 0, steps: 0 }),
    {
        let mut page_blocks: Vec<Vec<u32>> = Vec::new();
        let mut i: usize = 0;
        while i < PAGES
            invariant
                i <= PAGES,
                page_blocks@.len() == i,
                forall|p: int| 0 <= p < i ==> (#[trigger] page_blocks@[p])@.len() == 0,
            decreases PAGES - i,
        {
            page_blocks.push(Vec::new());
            i = i + 1;
        }
        Jit {
            arena,
            blocks: Vec::new(),
            by_pc: HashMap::new(),
            lookup: vec![0; LOOKUP_ENTRIES],
            page_blocks,
            cells: vec![0; LINK_CELLS],
            cell_slow: vec![0; LINK_CELLS],
            cells_used: 0,
            pending_links: HashMap::new(),
            targets: Ghost(Seq::new(LINK_CELLS as nat, |c: int| 0u32)),
            natives: Natives::all(),
            blocks_compiled: 0,
            blocks_invalidated: 0,
            blocks_run: 0,
            interp_steps: 0,
        }
    }

    /// The entry of the block at `pc`, if there is one.
    pub fn find(&self, pc: u32) -> (r: Option<u64>)
        requires
            self.wf(),
        ensures
            r == (match self.at(pc) {
                Some(i) => Some(self.blocks@[i].entry),
                None => None,
            }),
    {
        let slot: usize = (pc / 4) as usize % LOOKUP_ENTRIES;
        let idx: u32 = self.lookup[slot];
        if idx != 0 {
            let b = &self.blocks[idx as usize - 1];
            if b.valid && b.pc == pc {
                return Some(b.entry);
            }
        }
        match self.by_pc.get(&pc) {
            Some(i) => Some(self.blocks[*i as usize].entry),
            None => None,
        }
    }

    /// Cells set back to their slow paths.
    fn unlink(&mut self, list: &Vec<usize>)
        requires
            old(self).sizes_ok(),
            forall|j: int| 0 <= j < list@.len() ==> #[trigger] list@[j] < LINK_CELLS,
        ensures
            final(self).cells@.len() == LINK_CELLS,
            forall|c: int|
                0 <= c < LINK_CELLS ==> #[trigger] final(self).cells@[c] == (if list@.contains(c as usize) {
                    old(self).cell_slow@[c]
                } else {
                    old(self).cells@[c]
                }),
            *final(self) == (Jit { cells: final(self).cells, ..*old(self) }),
    {
        let mut i: usize = 0;
        while i < list.len()
            invariant
                old(self).sizes_ok(),
                forall|j: int| 0 <= j < list@.len() ==> #[trigger] list@[j] < LINK_CELLS,
                i <= list@.len(),
                self.cells@.len() == LINK_CELLS,
                *self == (Jit { cells: self.cells, ..*old(self) }),
                forall|c: int|
                    0 <= c < LINK_CELLS ==> #[trigger] self.cells@[c] == (if list@.take(i as int).contains(c as usize) {
                        old(self).cell_slow@[c]
                    } else {
                        old(self).cells@[c]
                    }),
            decreases list@.len() - i,
        {
            let c: usize = list[i];
            let v: u64 = self.cell_slow[c];
            self.cells[c] = v;
            proof {
                let t = list@.take(i as int);
                let u = list@.take(i + 1);
                assert(u =~= t.push(c));
                assert forall|d: usize| #[trigger] u.contains(d) == (t.contains(d) || d == c) by {
                    if t.contains(d) {
                        let k = choose|k: int| 0 <= k < t.len() && t[k] == d;
                        assert(u[k] == d);
                    }
                    if d == c {
                        assert(u[i as int] == d);
                    }
                }
            }
            i = i + 1;
        }
        assert(list@.take(i as int) =~= list@);
    }

    /// Drop one block: anything linked to it goes back to its slow path and
    /// waits for a recompile at its pc.
    #[verifier::rlimit(40)]
    fn drop_block(&mut self, i: usize)
        requires
            old(self).wf(),
            i < old(self).blocks@.len(),
            old(self).blocks@[i as int].valid,
        ensures
            final(self).wf(),
            final(self).blocks@.len() == old(self).blocks@.len(),
            final(self).blocks@[i as int].same((Block { valid: false, ..old(self).blocks@[i as int] })),
            forall|k: int|
                0 <= k < old(self).blocks@.len() && k != i ==> (#[trigger] final(self).blocks@[k]).same(
                    old(self).blocks@[k],
                ),
            final(self).page_blocks == old(self).page_blocks,
            final(self).targets == old(self).targets,
            final(self).cell_slow == old(self).cell_slow,
            final(self).cells_used == old(self).cells_used,
            final(self).arena == old(self).arena,
            final(self).natives == old(self).natives,
            final(self).counts() == (Counts { invalidated: up(old(self).blocks_invalidated, 1), ..old(self).counts() }),
            valid_among(final(self).blocks@) == valid_among(old(self).blocks@) - 1,
    {
        let pc: u32 = self.blocks[i].pc;
        let mut incoming: Vec<usize> = Vec::new();
        let ghost was = *old(self);
        let ghost list = self.blocks@[i as int].incoming@;
        let b = &mut self.blocks[i];
        b.valid = false;
        std::mem::swap(&mut incoming, &mut b.incoming);
        assert(incoming@ == list);
        assert forall|j: int| 0 <= j < list.len() implies #[trigger] list[j] < was.cells_used && was.targets@[list[j] as int]
            == pc by {
            assert(was.blocks@[i as int].incoming@[j] == list[j]);
        }
        let _ = self.by_pc.remove(&pc);
        self.blocks_invalidated = self.blocks_invalidated.saturating_add(1);
        self.unlink(&incoming);
        let mut waiting: Vec<usize> = match self.pending_links.remove(&pc) {
            Some(v) => v,
            None => Vec::new(),
        };
        waiting.append(&mut incoming);
        assert(waiting@ =~= list);
        self.pending_links.insert(pc, waiting);
        proof {
            assert(forall|q: u32| q != pc ==> self.at(q) == was.at(q));
            assert(self.at(pc) is None);
            assert forall|k: int| 0 <= k < self.blocks@.len() && (#[trigger] self.blocks@[k]).valid implies k != i
                && self.blocks@[k].pc != pc by {
                assert(was.blocks@[k].valid);
            }
            assert forall|c: int| 0 <= c < self.cells_used implies #[trigger] self.cells@[c] == self.link(c) by {
                assert(was.cells@[c] == was.link(c));
                let t = was.targets@[c];
                if list.contains(c as usize) {
                    let j = choose|j: int| 0 <= j < list.len() && list[j] == c as usize;
                    assert(list[j] == c);
                } else {
                    assert(t != pc);
                }
            }
            assert(self.links_ok());
            lemma_one_less(was.blocks@, self.blocks@, i as int);
        }
    }

    /// The count of dropped blocks went up by those that are valid no more.
    pub open spec fn counted(&self, was: &Jit) -> bool {
        let gone = valid_among(was.blocks@) - valid_among(self.blocks@);
        gone >= 0 && self.counts() == (Counts { invalidated: up(was.blocks_invalidated, gone), ..was.counts() })
    }

    /// The blocks of `was` less those hit by `a`.
    pub open spec fn without(&self, was: &Jit, a: u32) -> bool {
        &&& self.blocks@.len() == was.blocks@.len()
        &&& forall|k: int|
            0 <= k < was.blocks@.len() ==> {
                let (b, o) = (#[trigger] self.blocks@[k], was.blocks@[k]);
                b.same(Block { valid: o.valid && !o.hit(a), ..o })
            }
        &&& self.cells_used == was.cells_used
        &&& self.targets == was.targets
        &&& self.cell_slow == was.cell_slow
        &&& self.arena == was.arena
        &&& self.natives == was.natives
    }

    /// No valid block covers a page.
    pub open spec fn vacant(&self, page: int) -> bool {
        forall|k: int|
            0 <= k < self.blocks@.len() && (#[trigger] self.blocks@[k]).valid ==> !self.blocks@[k].covers(page)
    }

    /// Drop the blocks whose code was written at `a`. Whether its page holds
    /// no block any more.
    #[verifier::rlimit(40)]
    fn invalidate_at(&mut self, a: u32) -> (r: bool)
        requires
            old(self).wf(),
            note_ok(a),
        ensures
            final(self).wf(),
            final(self).without(old(self), a),
            final(self).counted(old(self)),
            r == final(self).vacant(a as int / 4096),
            forall|p: int| 0 <= p < PAGES && (old(self).vacant(p)) ==> #[trigger] final(self).vacant(p),
    {
        let page: usize = (a / 4096) as usize;
        let ghost was = *old(self);
        let ghost list = self.page_blocks@[page as int]@;
        let mut any_left = false;
        let mut j: usize = 0;
        while j < self.page_blocks[page].len()
            invariant
                note_ok(a),
                page == a / 4096,
                was.wf(),
                self.wf(),
                self.page_blocks == was.page_blocks,
                list == was.page_blocks@[page as int]@,
                j <= list.len(),
                self.counted(&was),
                self.cells_used == was.cells_used,
                self.targets == was.targets,
                self.cell_slow == was.cell_slow,
                self.arena == was.arena,
                self.natives == was.natives,
                self.blocks@.len() == was.blocks@.len(),
                forall|k: int|
                    0 <= k < was.blocks@.len() ==> {
                        let (b, o) = (#[trigger] self.blocks@[k], was.blocks@[k]);
                        &&& b.same(Block { valid: b.valid, ..o })
                        &&& b.valid ==> o.valid
                        &&& o.valid && !b.valid ==> o.hit(a)
                    },
                forall|q: int| 0 <= q < j ==> {
                    let b = self.blocks@[#[trigger] list[q] as int];
                    &&& b.valid ==> !b.hit(a)
                    &&& b.valid ==> any_left
                },
                any_left ==> exists|k: int|
                    0 <= k < self.blocks@.len() && self.blocks@[k].valid && #[trigger] self.blocks@[k].covers(
                        page as int,
                    ) && !self.blocks@[k].hit(a),
            decreases list.len() - j,
        {
            let idx: usize = self.page_blocks[page][j] as usize;
            assert(self.page_blocks@[page as int]@[j as int] < self.blocks@.len());
            if self.blocks[idx].valid {
                let hit = match self.blocks[idx].phys {
                    Some((s, e)) => s < a + 8 && a < e,
                    None => false,
                };
                if hit {
                    let ghost before = self.blocks@;
                    self.drop_block(idx);
                    proof {
                        if any_left {
                            let k = choose|k: int|
                                0 <= k < before.len() && before[k].valid && #[trigger] before[k].covers(page as int)
                                    && !before[k].hit(a);
                            assert(self.blocks@[k].same(before[k]));
                            assert(self.blocks@[k].covers(page as int));
                        }
                    }
                } else {
                    any_left = true;
                    assert(self.blocks@[idx as int].covers(page as int));
                }
            }
            j = j + 1;
        }
        proof {
            assert forall|k: int| 0 <= k < was.blocks@.len() && self.blocks@[k].valid implies !(#[trigger] self.blocks@[k]).hit(
                a,
            ) by {
                let b = self.blocks@[k];
                if b.hit(a) {
                    assert(b.covers(a as int / 4096));
                    assert(self.page_blocks@[page as int]@.contains(k as u32));
                    let q = choose|q: int| 0 <= q < list.len() && list[q] == k as u32;
                    assert(self.blocks@[list[q] as int] == b);
                }
            }
        }
        if !any_left {
            self.page_blocks[page].clear();
            proof {
                assert forall|k: int| 0 <= k < self.blocks@.len() && (#[trigger] self.blocks@[k]).valid implies !self.blocks@[k].covers(
                    page as int,
                ) by {
                    if self.blocks@[k].covers(page as int) {
                        assert(list.contains(k as u32));
                        let q = choose|q: int| 0 <= q < list.len() && list[q] == k as u32;
                        assert(self.blocks@[list[q] as int] == self.blocks@[k]);
                    }
                }
            }
        }
        !any_left
    }

    /// Drop the blocks whose code was written (8-byte granularity). The pages
    /// that hold none any more.
    pub fn invalidate(&mut self, dirty: &Vec<u32>) -> (cleared: Vec<usize>)
        requires
            old(self).wf(),
        ensures
            final(self).wf(),
            final(self).blocks@.len() == old(self).blocks@.len(),
            forall|k: int|
                0 <= k < old(self).blocks@.len() ==> {
                    let (b, o) = (#[trigger] final(self).blocks@[k], old(self).blocks@[k]);
                    b.same(Block { valid: o.valid && !hit_any(o, dirty@), ..o })
                },
            forall|q: int| 0 <= q < cleared@.len() ==> #[trigger] cleared@[q] < PAGES && final(self).vacant(cleared@[q] as int),
            forall|p: usize| #[trigger] cleared@.contains(p) == vacated(old(self).blocks@, dirty@, p as int),
            final(self).cells_used == old(self).cells_used,
            final(self).targets == old(self).targets,
            final(self).arena == old(self).arena,
            final(self).natives == old(self).natives,
            final(self).counted(old(self)),
    {
        let mut cleared: Vec<usize> = Vec::new();
        let mut i: usize = 0;
        while i < dirty.len()
            invariant
                i <= dirty@.len(),
                self.wf(),
                self.counted(old(self)),
                self.blocks@.len() == old(self).blocks@.len(),
                forall|k: int|
                    0 <= k < old(self).blocks@.len() ==> {
                        let (b, o) = (#[trigger] self.blocks@[k], old(self).blocks@[k]);
                        b.same(Block { valid: o.valid && !hit_any(o, dirty@.take(i as int)), ..o })
                    },
                forall|q: int| 0 <= q < cleared@.len() ==> #[trigger] cleared@[q] < PAGES && self.vacant(cleared@[q] as int),
                forall|p: usize| #[trigger]
                    cleared@.contains(p) == vacated(old(self).blocks@, dirty@.take(i as int), p as int),
                self.cells_used == old(self).cells_used,
                self.targets == old(self).targets,
                self.arena == old(self).arena,
                self.natives == old(self).natives,
            decreases dirty@.len() - i,
        {
            let a: u32 = dirty[i];
            proof {
                lemma_hit_more(dirty@, i as int);
            }
            let ghost listed = cleared@;
            if a % 8 == 0 && (a as usize) < PAGES * 4096 {
                if self.invalidate_at(a) {
                    cleared.push((a / 4096) as usize);
                }
                proof {
                    let page = (a / 4096) as usize;
                    assert(self.vacant(page as int) == all_hit(old(self).blocks@, dirty@.take(i + 1), page as int)) by {
                        lemma_vacant(old(self).blocks@, *self, dirty@.take(i + 1), page as int);
                    }
                    assert forall|p: usize| #[trigger] cleared@.contains(p) == (listed.contains(p) || (p == page
                        && self.vacant(page as int))) by {
                        lemma_pushed(listed, page, p);
                    }
                }
            }
            proof {
                assert forall|p: usize| #[trigger] cleared@.contains(p) == vacated(
                    old(self).blocks@,
                    dirty@.take(i + 1),
                    p as int,
                ) by {
                    lemma_vacated_more(old(self).blocks@, dirty@, i as int, p as int);
                }
            }
            i = i + 1;
        }
        assert(dirty@.take(i as int) =~= dirty@);
        cleared
    }

    /// Drop every block (arena full, TLB rewrite, ...).
    pub fn drop_all(&mut self)
        requires
            old(self).wf(),
        ensures
            final(self).wf(),
            final(self).emptied(old(self)),
    {
        self.arena.reset();
        self.blocks.clear();
        self.by_pc.clear();
        self.lookup = vec![0; LOOKUP_ENTRIES];
        let mut p: usize = 0;
        while p < PAGES
            invariant
                p <= PAGES,
                self.page_blocks@.len() == PAGES,
                forall|q: int| 0 <= q < p ==> (#[trigger] self.page_blocks@[q])@.len() == 0,
                self.arena == (Arena { used: 0, ..old(self).arena }),
                self.arena.wf(),
                self.arena.size <= ARENA_BYTES,
                self.arena.size % 16 == 0,
                self.natives == old(self).natives,
                self.counts() == old(self).counts(),
                self.blocks@.len() == 0,
                self.by_pc@ == Map::<u32, u32>::empty(),
                self.lookup@.len() == LOOKUP_ENTRIES,
                forall|k: int| 0 <= k < LOOKUP_ENTRIES ==> #[trigger] self.lookup@[k] == 0,
                self.cells@.len() == LINK_CELLS,
                self.cell_slow@.len() == LINK_CELLS,
                self.targets@.len() == LINK_CELLS,
            decreases PAGES - p,
        {
            self.page_blocks[p].clear();
            p = p + 1;
        }
        self.cells_used = 0;
        self.pending_links.clear();
    }

    /// Blocks are the same but for what is linked to them.
    pub open spec fn same_blocks(&self, was: &Jit) -> bool {
        &&& self.blocks@.len() >= was.blocks@.len()
        &&& forall|k: int| 0 <= k < was.blocks@.len() ==> (#[trigger] self.blocks@[k]).same(was.blocks@[k])
    }

    /// Wire a new exit to its compiled target, or park it.
    #[verifier::rlimit(40)]
    fn link_one(&mut self, target: u32, slow: u64)
        requires
            old(self).wf(),
            old(self).cells_used < LINK_CELLS,
        ensures
            final(self).wf(),
            final(self).same_blocks(old(self)),
            final(self).blocks@.len() == old(self).blocks@.len(),
            final(self).cells_used == old(self).cells_used + 1,
            final(self).targets@ == old(self).targets@.update(old(self).cells_used as int, target),
            final(self).cell_slow@ == old(self).cell_slow@.update(old(self).cells_used as int, slow),
            final(self).by_pc == old(self).by_pc,
            final(self).arena == old(self).arena,
            final(self).natives == old(self).natives,
            final(self).counts() == old(self).counts(),
    {
        let ghost was = *self;
        let cell: usize = self.cells_used;
        self.cells_used = cell + 1;
        self.cell_slow[cell] = slow;
        proof {
            self.targets@ = self.targets@.update(cell as int, target);
        }
        let found: Option<usize> = match self.by_pc.get(&target) {
            Some(t) => Some(*t as usize),
            None => None,
        };
        match found {
            Some(t) => {
                let body: u64 = self.blocks[t].body;
                self.cells[cell] = body;
                let b = &mut self.blocks[t];
                b.incoming.push(cell);
                proof {
                    let l = was.blocks@[t as int].incoming@;
                    assert(self.blocks@[t as int].incoming@ == l.push(cell));
                    assert(self.blocks@[t as int].incoming@[l.len() as int] == cell);
                    assert forall|c: usize| l.contains(c) implies #[trigger] self.blocks@[t as int].incoming@.contains(c) by {
                        let q = choose|q: int| 0 <= q < l.len() && l[q] == c;
                        assert(self.blocks@[t as int].incoming@[q] == c);
                    }
                }
            },
            None => {
                self.cells[cell] = slow;
                let mut list: Vec<usize> = match self.pending_links.remove(&target) {
                    Some(v) => v,
                    None => Vec::new(),
                };
                let ghost l = list@;
                list.push(cell);
                assert(list@[l.len() as int] == cell);
                assert forall|c: usize| l.contains(c) implies #[trigger] list@.contains(c) by {
                    let q = choose|q: int| 0 <= q < l.len() && l[q] == c;
                    assert(list@[q] == c);
                }
                self.pending_links.insert(target, list);
            },
        }
        proof {
            assert(self.targets@[cell as int] == target);
            assert(forall|c: int| 0 <= c < cell ==> self.targets@[c] == was.targets@[c]);
            assert forall|c: int| 0 <= c < self.cells_used implies #[trigger] self.cells@[c] == self.link(c) by {
                if c < cell {
                    assert(was.cells@[c] == was.link(c));
                }
            }
            assert(self.links_ok());
            assert forall|k: int| 0 <= k < was.blocks@.len() implies (#[trigger] self.blocks@[k]).same(was.blocks@[k]) by {}
            assert(self.blocks_ok()) by {
                assert forall|k: int| 0 <= k < self.blocks@.len() && (#[trigger] self.blocks@[k]).valid implies
                    self.by_pc@.contains_key(self.blocks@[k].pc) && self.by_pc@[self.blocks@[k].pc] == k by {
                    assert(was.blocks@[k].valid);
                }
            }
            assert(self.pages_ok()) by {
                assert forall|i: int, p: int|
                    0 <= i < self.blocks@.len() && self.blocks@[i].valid && #[trigger] self.blocks@[i].covers(p) && 0 <= p
                        < PAGES implies self.page_blocks@[p]@.contains(i as u32) by {
                    assert(was.blocks@[i].covers(p));
                }
                assert forall|i: int| 0 <= i < self.blocks@.len() implies (#[trigger] self.blocks@[i]).range_ok() by {
                    assert(was.blocks@[i].range_ok());
                }
            }
        }
    }

    /// Cells that waited for a block now point at its body.
    fn point(&mut self, list: &Vec<usize>, body: u64)
        requires
            old(self).sizes_ok(),
            forall|j: int| 0 <= j < list@.len() ==> #[trigger] list@[j] < LINK_CELLS,
        ensures
            final(self).cells@.len() == LINK_CELLS,
            forall|c: int|
                0 <= c < LINK_CELLS ==> #[trigger] final(self).cells@[c] == (if list@.contains(c as usize) {
                    body
                } else {
                    old(self).cells@[c]
                }),
            *final(self) == (Jit { cells: final(self).cells, ..*old(self) }),
    {
        let mut i: usize = 0;
        while i < list.len()
            invariant
                old(self).sizes_ok(),
                forall|j: int| 0 <= j < list@.len() ==> #[trigger] list@[j] < LINK_CELLS,
                i <= list@.len(),
                self.cells@.len() == LINK_CELLS,
                *self == (Jit { cells: self.cells, ..*old(self) }),
                forall|c: int|
                    0 <= c < LINK_CELLS ==> #[trigger] self.cells@[c] == (if list@.take(i as int).contains(c as usize) {
                        body
                    } else {
                        old(self).cells@[c]
                    }),
            decreases list@.len() - i,
        {
            let c: usize = list[i];
            self.cells[c] = body;
            proof {
                let t = list@.take(i as int);
                let u = list@.take(i + 1);
                assert(u =~= t.push(c));
                assert forall|d: usize| #[trigger] u.contains(d) == (t.contains(d) || d == c) by {
                    if t.contains(d) {
                        let k = choose|k: int| 0 <= k < t.len() && t[k] == d;
                        assert(u[k] == d);
                    }
                    if d == c {
                        assert(u[i as int] == d);
                    }
                }
            }
            i = i + 1;
        }
        assert(list@.take(i as int) =~= list@);
    }

    /// List a block on the pages of its range.
    fn list_pages(&mut self, idx: u32, s: u32, e: u32)
        requires
            old(self).page_blocks@.len() == PAGES,
            s < e <= PAGES * 4096,
        ensures
            final(self).page_blocks@.len() == PAGES,
            forall|p: int|
                0 <= p < PAGES ==> (#[trigger] final(self).page_blocks@[p])@ == (if s as int / 4096 <= p <= (e - 1) / 4096 {
                    old(self).page_blocks@[p]@.push(idx)
                } else {
                    old(self).page_blocks@[p]@
                }),
            *final(self) == (Jit { page_blocks: final(self).page_blocks, ..*old(self) }),
    {
        let first: usize = (s / 4096) as usize;
        let last: usize = ((e - 1) / 4096) as usize;
        let mut p: usize = first;
        while p <= last
            invariant
                old(self).page_blocks@.len() == PAGES,
                first <= p <= last + 1,
                last < PAGES,
                self.page_blocks@.len() == PAGES,
                forall|q: int|
                    0 <= q < PAGES ==> (#[trigger] self.page_blocks@[q])@ == (if first <= q < p {
                        old(self).page_blocks@[q]@.push(idx)
                    } else {
                        old(self).page_blocks@[q]@
                    }),
                *self == (Jit { page_blocks: self.page_blocks, ..*old(self) }),
            decreases last + 1 - p,
        {
            self.page_blocks[p].push(idx);
            p = p + 1;
        }
    }

    /// A new block stands: exits parked on its pc point at its body.
    #[verifier::rlimit(60)]
    fn add_block(&mut self, pc: u32, phys: Option<(u32, u32)>, len: u64, body_off: u64) -> (entry: u64)
        requires
            old(self).wf(),
            old(self).at(pc) is None,
            phys matches Some((s, e)) ==> s < e <= PAGES * 4096,
            0 < len <= old(self).arena.size - old(self).arena.used,
            body_off <= len,
        ensures
            final(self).wf(),
            entry == old(self).arena.base + old(self).arena.used,
            final(self).same_blocks(old(self)),
            final(self).blocks@.len() == old(self).blocks@.len() + 1,
            ({
                let b = final(self).blocks@[old(self).blocks@.len() as int];
                b.pc == pc && b.entry == entry && b.body == entry + body_off && b.phys == phys && b.valid
            }),
            final(self).at(pc) == Some(old(self).blocks@.len() as int),
            forall|q: u32| q != pc ==> final(self).at(q) == #[trigger] old(self).at(q),
            final(self).cells_used == old(self).cells_used,
            final(self).targets == old(self).targets,
            final(self).cell_slow == old(self).cell_slow,
            final(self).arena == (Arena { used: (old(self).arena.used + rounded(len)) as u64, ..old(self).arena }),
            final(self).natives == old(self).natives,
            final(self).counts() == (Counts { compiled: up(old(self).blocks_compiled, 1), ..old(self).counts() }),
    {
        let ghost was = *self;
        let entry: u64 = self.arena.place(len);
        let body: u64 = entry + body_off;
        let n: usize = self.blocks.len();
        let idx: u32 = n as u32;
        if let Some((s, e)) = phys {
            self.list_pages(idx, s, e);
        }
        let ghost listed = *self;
        let waiting: Vec<usize> = match self.pending_links.remove(&pc) {
            Some(v) => v,
            None => Vec::new(),
        };
        let ghost list = waiting@;
        assert forall|j: int| 0 <= j < list.len() implies #[trigger] list[j] < was.cells_used && was.targets@[list[j] as int]
            == pc by {
            assert(was.pending_links@[pc]@[j] == list[j]);
        }
        let slot: usize = (pc / 4) as usize % LOOKUP_ENTRIES;
        self.lookup[slot] = idx + 1;
        self.blocks_compiled = self.blocks_compiled.saturating_add(1);
        self.point(&waiting, body);
        self.blocks.push(Block { pc, entry, body, phys, incoming: waiting, valid: true });
        self.by_pc.insert(pc, idx);
        proof {
            assert(self.blocks@[n as int].incoming@ == list);
            assert forall|k: int| 0 <= k < was.blocks@.len() implies #[trigger] self.blocks@[k] == was.blocks@[k] by {}
            assert forall|c: int| 0 <= c < self.cells_used implies #[trigger] self.cells@[c] == self.link(c) by {
                assert(was.cells@[c] == was.link(c));
                let t = was.targets@[c];
                if list.contains(c as usize) {
                    let j = choose|j: int| 0 <= j < list.len() && list[j] == c as usize;
                    assert(list[j] == c);
                } else {
                    assert(t != pc);
                }
            }
            assert forall|i: int, p: int|
                0 <= i < self.blocks@.len() && self.blocks@[i].valid && #[trigger] self.blocks@[i].covers(p) && 0 <= p
                    < PAGES implies self.page_blocks@[p]@.contains(i as u32) by {
                let l = was.page_blocks@[p]@;
                let m = self.page_blocks@[p]@;
                if i < n {
                    assert(was.blocks@[i].covers(p));
                    let q = choose|q: int| 0 <= q < l.len() && l[q] == i as u32;
                    assert(m[q] == i as u32);
                } else {
                    assert(m == l.push(idx));
                    assert(m[l.len() as int] == idx);
                }
            }
            assert forall|p: int, j: int| 0 <= p < PAGES && 0 <= j < self.page_blocks@[p]@.len() implies #[trigger] self.page_blocks@[p]@[j]
                < self.blocks@.len() by {
                let l = was.page_blocks@[p]@;
                if j < l.len() {
                    assert(was.page_blocks@[p]@[j] < was.blocks@.len());
                }
            }
            assert(self.blocks_ok());
            assert(self.pages_ok());
            assert(self.links_ok());
        }
        entry
    }

    /// The first cells from `first` on are those of the links.
    pub open spec fn linked(&self, first: int, links: Seq<Link>, slow: spec_fn(int) -> u64, n: int) -> bool {
        forall|k: int|
            0 <= k < n ==> {
                &&& self.targets@[first + k] == (#[trigger] links[k]).target
                &&& self.cell_slow@[first + k] == slow(k)
            }
    }

    /// A block was assembled: its code takes `len` bytes of the arena, with
    /// the body and the links' slow paths at offsets in it. It is entered
    /// where the arena's next block was to stand.
    pub fn install(
        &mut self,
        pc: u32,
        phys: Option<(u32, u32)>,
        len: u64,
        body_off: u64,
        links: &Vec<Link>,
        slow_offs: &Vec<u64>,
    ) -> (entry: u64)
        requires
            old(self).wf(),
            old(self).at(pc) is None,
            phys matches Some((s, e)) ==> s < e <= PAGES * 4096,
            0 < len <= old(self).arena.size - old(self).arena.used,
            body_off <= len,
            slow_offs@.len() == links@.len(),
            forall|k: int| 0 <= k < slow_offs@.len() ==> #[trigger] slow_offs@[k] <= len,
            old(self).cells_used + links@.len() <= LINK_CELLS,
        ensures
            final(self).wf(),
            entry == old(self).arena.base + old(self).arena.used,
            final(self).same_blocks(old(self)),
            final(self).blocks@.len() == old(self).blocks@.len() + 1,
            ({
                let b = final(self).blocks@[old(self).blocks@.len() as int];
                b.pc == pc && b.entry == entry && b.body == entry + body_off && b.phys == phys && b.valid
            }),
            final(self).at(pc) == Some(old(self).blocks@.len() as int),
            forall|q: u32| q != pc ==> final(self).at(q) == #[trigger] old(self).at(q),
            final(self).cells_used == old(self).cells_used + links@.len(),
            final(self).linked(
                old(self).cells_used as int,
                links@,
                |k: int| (entry + slow_offs@[k]) as u64,
                links@.len() as int,
            ),
            final(self).targets@.take(old(self).cells_used as int) == old(self).targets@.take(old(self).cells_used as int),
            final(self).cell_slow@.take(old(self).cells_used as int) == old(self).cell_slow@.take(
                old(self).cells_used as int,
            ),
            final(self).arena == (Arena { used: (old(self).arena.used + rounded(len)) as u64, ..old(self).arena }),
            final(self).natives == old(self).natives,
            final(self).counts() == (Counts { compiled: up(old(self).blocks_compiled, 1), ..old(self).counts() }),
    {
        let ghost was = *self;
        let entry: u64 = self.add_block(pc, phys, len, body_off);
        let ghost added = *self;
        let ghost slow = |k: int| (entry + slow_offs@[k]) as u64;
        let mut i: usize = 0;
        while i < links.len()
            invariant
                i <= links@.len(),
                slow_offs@.len() == links@.len(),
                forall|k: int| 0 <= k < slow_offs@.len() ==> #[trigger] slow_offs@[k] <= len,
                entry + len <= u64::MAX,
                was.cells_used + links@.len() <= LINK_CELLS,
                was.wf(),
                added.wf(),
                self.wf(),
                self.same_blocks(&added),
                self.blocks@.len() == added.blocks@.len(),
                self.by_pc == added.by_pc,
                self.arena == added.arena,
                self.natives == added.natives,
                self.counts() == added.counts(),
                self.cells_used == was.cells_used + i,
                added.targets == was.targets,
                added.cell_slow == was.cell_slow,
                slow == (|k: int| (entry + slow_offs@[k]) as u64),
                self.linked(was.cells_used as int, links@, slow, i as int),
                forall|c: int| 0 <= c < was.cells_used ==> #[trigger] self.targets@[c] == was.targets@[c],
                forall|c: int| 0 <= c < was.cells_used ==> #[trigger] self.cell_slow@[c] == was.cell_slow@[c],
            decreases links@.len() - i,
        {
            let off: u64 = slow_offs[i];
            let target: u32 = links[i].target;
            let ghost before = *self;
            self.link_one(target, entry + off);
            proof {
                let first = was.cells_used as int;
                assert forall|k: int| 0 <= k < i + 1 implies self.targets@[first + k] == (#[trigger] links@[k]).target
                    && self.cell_slow@[first + k] == slow(k) by {
                    if k < i {
                        assert(before.targets@[first + k] == links@[k].target);
                    }
                }
            }
            i = i + 1;
        }
        proof {
            assert(self.targets@.take(was.cells_used as int) =~= was.targets@.take(was.cells_used as int));
            assert(self.cell_slow@.take(was.cells_used as int) =~= was.cell_slow@.take(was.cells_used as int));
            assert(forall|q: u32| self.at(q) == added.at(q));
            assert forall|k: int| 0 <= k < was.blocks@.len() implies (#[trigger] self.blocks@[k]).same(was.blocks@[k]) by {
                assert(added.blocks@[k].same(was.blocks@[k]));
            }
        }
        entry
    }
}

/// A linked jump lands in the body of the valid block at its target; a jump
/// whose target has no block takes its own slow path.
pub proof fn law_links_lead_to_their_targets(j: Jit, c: int)
    requires
        j.wf(),
        0 <= c < j.cells_used,
    ensures
        match j.at(j.targets@[c]) {
            Some(i) => {
                &&& j.blocks@[i].valid
                &&& j.blocks@[i].pc == j.targets@[c]
                &&& j.cells@[c] == j.blocks@[i].body
            },
            None => j.cells@[c] == j.cell_slow@[c],
        },
{
    assert(j.cells@[c] == j.link(c));
}

/// No stale code survives: once a note of a write was served, no valid block
/// holds a byte of the doubleword written.
pub proof fn law_written_code_is_dropped(j: Jit, was: Jit, dirty: Seq<u32>, q: int, k: int)
    requires
        was.wf(),
        0 <= q < dirty.len(),
        note_ok(dirty[q]),
        0 <= k < was.blocks@.len(),
        j.blocks@[k].same((Block { valid: was.blocks@[k].valid && !hit_any(was.blocks@[k], dirty), ..was.blocks@[k] })),
    ensures
        j.blocks@[k].valid ==> !j.blocks@[k].hit(dirty[q]),
        j.blocks@[k].valid ==> was.blocks@[k].valid,
{
}

/// A block is hit by one of some notes.
pub open spec fn hit_any(b: Block, dirty: Seq<u32>) -> bool {
    exists|q: int| 0 <= q < dirty.len() && note_ok(#[trigger] dirty[q]) && b.hit(dirty[q])
}

/// Every valid block on a page is hit by one of some notes.
pub open spec fn all_hit(blocks: Seq<Block>, dirty: Seq<u32>, page: int) -> bool {
    forall|k: int|
        0 <= k < blocks.len() && (#[trigger] blocks[k]).valid && blocks[k].covers(page) ==> hit_any(blocks[k], dirty)
}

/// A note on the page finds it without a block, those dropped for it and
/// for the notes before it counted out.
pub open spec fn vacated(blocks: Seq<Block>, dirty: Seq<u32>, page: int) -> bool {
    exists|i: int| #[trigger] vacated_by(blocks, dirty, i, page)
}

pub open spec fn vacated_by(blocks: Seq<Block>, dirty: Seq<u32>, i: int, page: int) -> bool {
    &&& 0 <= i < dirty.len()
    &&& note_ok(dirty[i])
    &&& dirty[i] / 4096 == page
    &&& all_hit(blocks, dirty.take(i + 1), page)
}

proof fn lemma_vacated_more(blocks: Seq<Block>, dirty: Seq<u32>, i: int, page: int)
    requires
        0 <= i < dirty.len(),
    ensures
        vacated(blocks, dirty.take(i + 1), page) == (vacated(blocks, dirty.take(i), page) || vacated_by(
            blocks,
            dirty,
            i,
            page,
        )),
{
    let (s, t) = (dirty.take(i), dirty.take(i + 1));
    assert forall|k: int| 0 <= k < i implies #[trigger] vacated_by(blocks, s, k, page) == vacated_by(blocks, t, k, page) by {
        assert(s.take(k + 1) =~= t.take(k + 1));
    }
    assert(t.take(i + 1) =~= dirty.take(i + 1));
    assert(vacated_by(blocks, t, i, page) == vacated_by(blocks, dirty, i, page));
    if vacated(blocks, s, page) {
        let k = choose|k: int| #[trigger] vacated_by(blocks, s, k, page);
        assert(vacated_by(blocks, t, k, page));
    }
    if vacated(blocks, t, page) {
        let k = choose|k: int| #[trigger] vacated_by(blocks, t, k, page);
        if k < i {
            assert(vacated_by(blocks, s, k, page));
        }
    }
}

/// A page is vacant when all its blocks were hit.
proof fn lemma_vacant(was: Seq<Block>, j: Jit, dirty: Seq<u32>, page: int)
    requires
        j.blocks@.len() == was.len(),
        forall|k: int|
            0 <= k < was.len() ==> {
                let (b, o) = (#[trigger] j.blocks@[k], was[k]);
                b.same(Block { valid: o.valid && !hit_any(o, dirty), ..o })
            },
    ensures
        j.vacant(page) == all_hit(was, dirty, page),
{
    if j.vacant(page) {
        assert forall|k: int| 0 <= k < was.len() && (#[trigger] was[k]).valid && was[k].covers(page) implies hit_any(
            was[k],
            dirty,
        ) by {
            assert(!(j.blocks@[k].valid && j.blocks@[k].covers(page)));
        }
    }
    if all_hit(was, dirty, page) {
        assert forall|k: int| 0 <= k < j.blocks@.len() && (#[trigger] j.blocks@[k]).valid implies !j.blocks@[k].covers(
            page,
        ) by {
            assert(was[k].valid);
        }
    }
}

pub proof fn lemma_pushed(s: Seq<usize>, x: usize, p: usize)
    ensures
        s.push(x).contains(p) == (s.contains(p) || p == x),
{
    let t = s.push(x);
    if s.contains(p) {
        let k = choose|k: int| 0 <= k < s.len() && s[k] == p;
        assert(t[k] == p);
    }
    assert(t[s.len() as int] == x);
}

proof fn lemma_hit_more(dirty: Seq<u32>, i: int)
    requires
        0 <= i < dirty.len(),
    ensures
        forall|b: Block| #[trigger]
            hit_any(b, dirty.take(i + 1)) == (hit_any(b, dirty.take(i)) || (note_ok(dirty[i]) && b.hit(dirty[i]))),
{
    assert forall|b: Block| #[trigger] hit_any(b, dirty.take(i + 1)) == (hit_any(b, dirty.take(i)) || (note_ok(dirty[i])
        && b.hit(dirty[i]))) by {
        let (s, t) = (dirty.take(i), dirty.take(i + 1));
        if hit_any(b, s) {
            let q = choose|q: int| 0 <= q < s.len() && note_ok(#[trigger] s[q]) && b.hit(s[q]);
            assert(t[q] == s[q]);
        }
        if note_ok(dirty[i]) && b.hit(dirty[i]) {
            assert(t[i] == dirty[i]);
        }
        if hit_any(b, t) {
            let q = choose|q: int| 0 <= q < t.len() && note_ok(#[trigger] t[q]) && b.hit(t[q]);
            if q < i {
                assert(s[q] == t[q]);
            }
        }
    }
}

/// A note of a written doubleword of RAM.
pub open spec fn note_ok(a: u32) -> bool {
    a % 8 == 0 && a < PAGES * 4096
}

} // verus!
