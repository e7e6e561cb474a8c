//! Periodic events: deferred completions, the IOP's root counters and
//! vertical blank.

use vstd::prelude::*;
use crate::gs::front::{stream, Cmd, Csr, FrontModel, Step};
use super::iop_timer::{law_waits_are_bounded, IopTimer, MAX_TICK_GAP};
use super::regs::{BusModel, EeRegs, IopRegs};
use super::sif::{IopDmaChannel, IOP_CHCR_BUSY};
use super::Bus;

verus! {

/// What the devices outside the bus report at a tick.
#[derive(Clone, Copy)]
pub struct Ticks {
    /// INTC bits that the EE timers raise, and their next event.
    pub timer_irqs: u32,
    pub timer_next: u64,
    /// SPU2 DMAs that completed, a voice crossing IRQA, and the next sample.
    pub spu_done0: bool,
    pub spu_done1: bool,
    pub spu_irq: bool,
    pub spu_next: u64,
}

/// D_STAT with the due completions.
pub open spec fn due_bits(irqs: Seq<(u32, u64)>, now: u64, d: u32) -> u32
    decreases irqs.len(),
{
    if irqs.len() == 0 {
        d
    } else {
        let before = due_bits(irqs.drop_last(), now, d);
        if irqs.last().1 <= now {
            before | irqs.last().0
        } else {
            before
        }
    }
}

/// Completions still to come.
pub open spec fn later(irqs: Seq<(u32, u64)>, now: u64) -> Seq<(u32, u64)>
    decreases irqs.len(),
{
    if irqs.len() == 0 {
        Seq::empty()
    } else {
        let before = later(irqs.drop_last(), now);
        if irqs.last().1 <= now {
            before
        } else {
            before.push(irqs.last())
        }
    }
}

pub open spec fn min(a: int, b: int) -> int {
    if a < b {
        a
    } else {
        b
    }
}

/// The earliest completion, or `d`.
pub open spec fn first_due(irqs: Seq<(u32, u64)>, d: int) -> int
    decreases irqs.len(),
{
    if irqs.len() == 0 {
        d
    } else {
        min(first_due(irqs.drop_last(), d), irqs.last().1 as int)
    }
}

impl IopTimer {
    /// The count passed the target on its way since the last check.
    pub open spec fn crossed(self, idx: int, now: u64, hblank: u64) -> bool {
        let before = self.value(idx, self.last_check, hblank);
        let after = self.value(idx, now, hblank);
        if before <= after {
            before < self.target && self.target <= after
        } else {
            self.target > before || self.target <= after
        }
    }

    /// The count wrapped since the last check.
    pub open spec fn wrapped(self, idx: int, now: u64, hblank: u64) -> bool {
        self.value(idx, now, hblank) < self.value(idx, self.last_check, hblank)
    }

    /// After a check. The reached-target and reached-max flags latch even
    /// with the interrupt disabled; mode bit 3 restarts the count at its
    /// target.
    pub open spec fn checked(self, idx: int, now: u64, hblank: u64) -> IopTimer {
        let moved = self.value(idx, self.last_check, hblank) != self.value(idx, now, hblank);
        let seen = IopTimer { last_check: now, ..self };
        let reached = if moved && self.crossed(idx, now, hblank) {
            let flagged = IopTimer { mode: seen.mode | 0x800, ..seen };
            if flagged.mode & 8 != 0 {
                IopTimer { base: 0, base_cycle: now, ..flagged }
            } else {
                flagged
            }
        } else {
            seen
        };
        if self.mode == 0 {
            // Never configured.
            self
        } else if self.wrapped(idx, now, hblank) {
            IopTimer { mode: reached.mode | 0x1000, ..reached }
        } else {
            reached
        }
    }

    /// Mode bits 4 and 5 gate the interrupt for target and overflow.
    pub open spec fn fires(self, idx: int, now: u64, hblank: u64) -> bool {
        let moved = self.value(idx, self.last_check, hblank) != self.value(idx, now, hblank);
        let after = self.checked(idx, now, hblank);
        self.mode != 0 && moved && ((self.crossed(idx, now, hblank) && after.mode & 0x10 != 0) || (self.wrapped(
            idx,
            now,
            hblank,
        ) && after.mode & 0x20 != 0))
    }

    fn check(&mut self, idx: usize, now: u64, hblank: u64) -> (fired: bool)
        requires
            hblank > 0,
        ensures
            *final(self) == old(self).checked(idx as int, now, hblank),
            fired == old(self).fires(idx as int, now, hblank),
    {
        if self.mode == 0 {
            return false;
        }
        let before: u32 = self.count(idx, self.last_check, hblank);
        let after: u32 = self.count(idx, now, hblank);
        self.last_check = now;
        if before == after {
            return false;
        }
        let target: u32 = self.target;
        let crossed = if before <= after {
            before < target && target <= after
        } else {
            target > before || target <= after
        };
        if crossed {
            self.mode = self.mode | 0x800;
            if self.mode & 8 != 0 {
                self.base = 0;
                self.base_cycle = now;
            }
        }
        if after < before {
            self.mode = self.mode | 0x1000;
        }
        (crossed && self.mode & 0x10 != 0) || (after < before && self.mode & 0x20 != 0)
    }
}

/// I_STAT bit of a counter.
pub open spec fn timer_irq(t: int) -> u32 {
    if t == 0 {
        0x10
    } else if t == 1 {
        0x20
    } else if t == 2 {
        0x40
    } else if t == 3 {
        0x4000
    } else if t == 4 {
        0x8000
    } else {
        0x1_0000
    }
}

/// I_STAT with the interrupts of the first `n` counters.
pub open spec fn fired(timers: Seq<IopTimer>, now: u64, hblank: u64, n: int, i_stat: u32) -> u32
    decreases n,
{
    if n <= 0 {
        i_stat
    } else {
        let before = fired(timers, now, hblank, n - 1, i_stat);
        if timers[n - 1].fires(n - 1, now, hblank) {
            before | timer_irq(n - 1)
        } else {
            before
        }
    }
}

/// The next event of the first `n` counters, or `d`.
pub open spec fn first_event(timers: Seq<IopTimer>, now: u64, hblank: u64, n: int, d: int) -> int
    decreases n,
{
    if n <= 0 {
        d
    } else {
        let before = first_event(timers, now, hblank, n - 1, d);
        if timers[n - 1].mode == 0 {
            before
        } else {
            min(before, timers[n - 1].event_at(n - 1, now, hblank))
        }
    }
}

impl BusModel {
    /// A due CDVD N-command completion: internal flags, the IOP interrupt
    /// line, and any DMA that was armed while the drive worked.
    #[verifier::opaque]
    pub open spec fn cdvd_ticked(self) -> BusModel {
        if self.iop.cdvd_done_at matches Some(at) && at <= self.ee.now {
            let m = BusModel {
                cdvd: self.cdvd.finished(),
                iop: IopRegs { cdvd_done_at: None, i_stat: self.iop.i_stat | 4, ..self.iop },
                ..self
            };
            if m.iop.cdvd_deferred && m.cdvd.read_pos < m.cdvd.read_buf.len() {
                m.with_iop(IopRegs { cdvd_deferred: false, ..m.iop }).cdvd_dma()
            } else {
                m
            }
        } else {
            self
        }
    }

    /// Due deferred DMA completion interrupts.
    #[verifier::opaque]
    pub open spec fn irqs_ticked(self) -> BusModel {
        BusModel {
            ee: EeRegs { d_stat: due_bits(self.irqs, self.ee.now, self.ee.d_stat), ..self.ee },
            irqs: later(self.irqs, self.ee.now),
            ..self
        }
    }

    /// What the SPU2 reported.
    #[verifier::opaque]
    pub open spec fn spu_ticked(self, t: Ticks) -> BusModel {
        let a = if t.spu_done0 {
            IopRegs {
                spu0: IopDmaChannel { chcr: self.iop.spu0.chcr & !IOP_CHCR_BUSY, ..self.iop.spu0 },
                ..self.iop
            }.dma_done(4)
        } else {
            self.iop
        };
        let b = if t.spu_done1 {
            IopRegs { spu1: IopDmaChannel { chcr: a.spu1.chcr & !IOP_CHCR_BUSY, ..a.spu1 }, ..a }.dma_done(7)
        } else {
            a
        };
        self.with_iop(
            if t.spu_irq {
                IopRegs { i_stat: b.i_stat | 0x200, ..b }
            } else {
                b
            },
        )
    }

    /// When the next periodic event can come, within bounds.
    pub open spec fn next_due(self, t: Ticks) -> int {
        let a = min(min(self.ee.now + MAX_TICK_GAP, t.timer_next as int), t.spu_next as int);
        let b = match self.iop.cdvd_done_at {
            Some(at) => min(a, at as int),
            None => a,
        };
        let c = first_due(self.irqs, b);
        let d = first_event(self.timers, self.ee.now, self.ee.region.hblank(), 6, c);
        if d > self.ee.now {
            d
        } else {
            self.ee.now + 1
        }
    }

    /// The IOP's counters checked.
    #[verifier::opaque]
    pub open spec fn counters_ticked(self) -> BusModel {
        let (now, hblank) = (self.ee.now, self.ee.region.hblank());
        BusModel {
            timers: Seq::new(self.timers.len(), |i: int| self.timers[i].checked(i, now, hblank)),
            iop: IopRegs { i_stat: fired(self.timers, now, hblank, 6, self.iop.i_stat), ..self.iop },
            ..self
        }
    }

    /// After a tick.
    pub open spec fn ticked(self, t: Ticks) -> BusModel {
        let a = self.cdvd_ticked().irqs_ticked().spu_ticked(t);
        let b = BusModel { ee: a.ee.raised(t.timer_irqs), ..a };
        let c = b.counters_ticked();
        BusModel { ee: EeRegs { timers_due: b.next_due(t) as u64, ..c.ee }, ..c }
    }

    /// After vertical blank begins (EE INTC bit 2, IOP I_STAT bit 0, GS CSR
    /// VSINT) or ends (bits 3 and 11).
    pub open spec fn vblanked(self, begin: bool) -> BusModel {
        if begin {
            BusModel {
                ee: self.ee.raised(4),
                iop: IopRegs { i_stat: self.iop.i_stat | 1, ..self.iop },
                front: FrontModel {
                    irq: Csr { csr: self.front.irq.csr ^ 0x2000, ..self.front.irq }.raised(3),
                    queued: Seq::empty(),
                    ..self.front
                },
                ..self
            }.gs_synced()
        } else {
            BusModel {
                ee: self.ee.raised(8),
                iop: IopRegs { i_stat: self.iop.i_stat | 0x800, ..self.iop },
                ..self
            }
        }
    }
}

impl Bus {
    fn tick_cdvd(&mut self)
        requires
            old(self).wf(),
        ensures
            final(self).wf(),
            final(self).model() == old(self).model().cdvd_ticked(),
    {
        proof {
            reveal(BusModel::cdvd_ticked);
        }
        if let Some(at) = self.iop.cdvd_done_at {
            if at <= self.ee.now {
                self.cdvd.finish_n();
                let mut iop = self.iop;
                iop.cdvd_done_at = None;
                iop.i_stat = iop.i_stat | 4;
                let run = iop.cdvd_deferred && self.cdvd.read_remaining() > 0;
                if run {
                    iop.cdvd_deferred = false;
                }
                self.iop = iop;
                if run {
                    self.do_cdvd_dma();
                }
            }
        }
    }

    fn tick_irqs(&mut self)
        requires
            old(self).wf(),
        ensures
            final(self).wf(),
            final(self).model() == old(self).model().irqs_ticked(),
    {
        proof {
            reveal(BusModel::irqs_ticked);
        }
        let ghost all = self.dma_irqs@;
        let now: u64 = self.ee.now;
        let mut left: Vec<(u32, u64)> = Vec::new();
        let mut d: u32 = self.ee.d_stat;
        let n: usize = self.dma_irqs.len();
        assert(all.subrange(0, 0) =~= Seq::empty());
        for i in 0..n
            invariant
                n == all.len(),
                self.dma_irqs@ == all,
                left@ == later(all.subrange(0, i as int), now),
                d == due_bits(all.subrange(0, i as int), now, self.ee.d_stat),
        {
            let (bit, at) = self.dma_irqs[i];
            assert(all.subrange(0, i + 1).drop_last() =~= all.subrange(0, i as int));
            if at <= now {
                d = d | bit;
            } else {
                left.push((bit, at));
            }
        }
        assert(all.subrange(0, n as int) =~= all);
        self.dma_irqs = left;
        self.ee.d_stat = d;
    }

    fn tick_spu(&mut self, t: Ticks)
        requires
            old(self).wf(),
        ensures
            final(self).wf(),
            final(self).model() == old(self).model().spu_ticked(t),
    {
        proof {
            reveal(BusModel::spu_ticked);
        }
        let mut iop = self.iop;
        if t.spu_done0 {
            iop.spu0.chcr = iop.spu0.chcr & !IOP_CHCR_BUSY;
            iop.iop_dma_irq(4);
        }
        if t.spu_done1 {
            iop.spu1.chcr = iop.spu1.chcr & !IOP_CHCR_BUSY;
            iop.iop_dma_irq(7);
        }
        if t.spu_irq {
            iop.i_stat = iop.i_stat | 0x200;
        }
        self.iop = iop;
    }

    fn next_tick(&self, t: Ticks) -> (at: u64)
        requires
            self.wf(),
        ensures
            at == self.model().next_due(t),
    {
        let now: u64 = self.ee.now;
        let hblank: u64 = self.ee.region.iop_hblank_div();
        let mut due: u64 = now + MAX_TICK_GAP;
        if t.timer_next < due {
            due = t.timer_next;
        }
        if t.spu_next < due {
            due = t.spu_next;
        }
        if let Some(at) = self.iop.cdvd_done_at {
            if at < due {
                due = at;
            }
        }
        let ghost start = due as int;
        let ghost all = self.dma_irqs@;
        let n: usize = self.dma_irqs.len();
        assert(all.subrange(0, 0) =~= Seq::empty());
        for i in 0..n
            invariant
                n == all.len(),
                self.dma_irqs@ == all,
                due == first_due(all.subrange(0, i as int), start),
        {
            let (_, at) = self.dma_irqs[i];
            assert(all.subrange(0, i + 1).drop_last() =~= all.subrange(0, i as int));
            if at < due {
                due = at;
            }
        }
        assert(all.subrange(0, n as int) =~= all);
        let ghost start = due as int;
        for i in 0..6usize
            invariant
                self.wf(),
                now == self.ee.now,
                hblank == self.ee.region.hblank(),
                due == first_event(self.iop_timers@, now, hblank, i as int, start),
        {
            if self.iop_timers[i].mode != 0 {
                proof {
                    law_waits_are_bounded(self.iop_timers@[i as int], i as int, now, hblank);
                }
                let at: u64 = self.iop_timers[i].next_event(i, now, hblank);
                if at < due {
                    due = at;
                }
            }
        }
        if due > now {
            due
        } else {
            now + 1
        }
    }

    fn tick_counters(&mut self)
        requires
            old(self).wf(),
        ensures
            final(self).wf(),
            final(self).model() == old(self).model().counters_ticked(),
    {
        proof {
            reveal(BusModel::counters_ticked);
        }
        let ghost start = self.model();
        let now: u64 = self.ee.now;
        let hblank: u64 = self.ee.region.iop_hblank_div();
        let mut i_stat: u32 = self.iop.i_stat;
        for t in 0..6usize
            invariant
                start.timers.len() == 6,
                now == start.ee.now,
                hblank == start.ee.region.hblank(),
                self.wf(),
                self.model() == (BusModel { timers: self.iop_timers@, ..start }),
                i_stat == fired(start.timers, now, hblank, t as int, start.iop.i_stat),
                forall|i: int| 0 <= i < t ==> self.iop_timers@[i] == start.timers[i].checked(i, now, hblank),
                forall|i: int| t <= i < 6 ==> self.iop_timers@[i] == start.timers[i],
        {
            let mut timer = self.iop_timers[t];
            if timer.check(t, now, hblank) {
                i_stat = i_stat | match t {
                    0 => 0x10,
                    1 => 0x20,
                    2 => 0x40,
                    3 => 0x4000,
                    4 => 0x8000,
                    _ => 0x1_0000,
                };
            }
            self.iop_timers[t] = timer;
        }
        assert(self.iop_timers@ =~= start.counters_ticked().timers);
        self.iop.i_stat = i_stat;
    }

    /// Edge-detect timer interrupts on both sides and deliver what is due.
    /// Called periodically, at [`EeRegs::timers_due`] at the latest.
    pub fn tick_timers(&mut self, t: Ticks)
        requires
            old(self).wf(),
        ensures
            final(self).wf(),
            final(self).model() == old(self).model().ticked(t),
    {
        self.tick_cdvd();
        self.tick_irqs();
        self.tick_spu(t);
        self.raise_intc(t.timer_irqs);
        let due: u64 = self.next_tick(t);
        self.tick_counters();
        self.ee.timers_due = due;
    }

    /// Vertical blank begin/end. Gives the batch that the renderer runs.
    pub fn vblank(&mut self, begin: bool) -> (batch: Vec<Cmd>)
        requires
            old(self).wf(),
        ensures
            final(self).wf(),
            final(self).model() == old(self).model().vblanked(begin),
            !begin ==> batch@.len() == 0,
            begin ==> stream(batch@) == (if old(self).gs.publish_frames {
                old(self).gs.queued() + seq![
                    Step::Vblank(
                        (final(self).gs.irq.csr & 0x2000 == 0) != old(self).gs.swap_fields,
                        old(self).gs.deinterlace,
                    ),
                ]
            } else {
                old(self).gs.queued()
            }),
    {
        if begin {
            self.raise_intc(4);
            self.iop.i_stat = self.iop.i_stat | 1;
            let batch = self.gs.vblank();
            self.gs_sync_int();
            batch
        } else {
            self.raise_intc(8);
            self.iop.i_stat = self.iop.i_stat | 0x800;
            Vec::new()
        }
    }
}

} // verus!
