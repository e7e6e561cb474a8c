//! EE physical memory map and access. Virtual segments are folded to
//! physical via [`tlb::Tlb`]; reads and writes are dispatched to RAM, BIOS
//! ROM, scratchpad, MMIO and the IOP window.
//!
//! Devices that are not part of the library (the EE timers, the VIFs, the
//! VUs, the IPU, the SIF mailboxes, the SPU2) are served from outside: what
//! they have to hear is queued in [`Bus::events`], and what a read of one of
//! their registers gives is latched in [`Bus::reply`] before the access.

pub mod cdvd;
pub mod device_laws;
pub mod dma;
pub mod iop;
pub mod iop_timer;
pub mod laws;
pub mod marks;
pub mod memcard;
pub mod memory;
pub mod regs;
pub mod sif;
pub mod sio2;
pub mod tick;
pub mod tlb;

use vstd::prelude::*;
use crate::bits::bits;
use crate::gif::Gif;
use crate::gs::front::GsFront;
use self::cdvd::{Cdvd, CDVD_RESETTLE};
use self::dma::{pump, pump_spr, EeDmaChannel, Packet, EE_CHCR_STR};
use self::iop_timer::IopTimer;
use self::memory::{is_size, read_le, read_quad, write_le, Memory, BIOS_SIZE, RAM_SIZE};
use self::regs::{
    channel_reg, ipu_stream, vif_stream, vif_words, BusModel, Channel, EeRegs, Event, IopRegs, Region, DMA_IRQ_DELAY,
    INTC_LATENCY, RDRAM_DEVICES, VIF_STAT_FDR,
};
use self::sif::{IopDmaChannel, SifEvent, SifLink};
use self::sio2::Sio2;
use self::tlb::{translated, Tlb, TlbEntry};

verus! {

pub struct Bus {
    pub mem: Memory,
    pub tlb: Tlb,
    /// Shadow storage for EE MMIO registers that nothing else keeps.
    pub mmio: Vec<u8>,
    pub gs: GsFront,
    pub gif: Gif,
    pub ee: EeRegs,
    pub sif: SifLink,
    pub iop: IopRegs,
    /// IOP root counters.
    pub iop_timers: Vec<IopTimer>,
    /// Shadow storage for IOP MMIO.
    pub iop_mmio: Vec<u8>,
    pub cdvd: Cdvd,
    pub sio2: Sio2,
    /// Deferred EE DMAC completion interrupts: (D_STAT bit, due cycle).
    pub dma_irqs: Vec<(u32, u64)>,
    /// What devices outside the bus have to hear, in order.
    pub events: Vec<Event>,
    /// What the device outside the bus that the next read addresses answers.
    pub reply: u64,
    /// Kernel TTY output captured from the EE SIO TXFIFO.
    pub tty_buffer: String,
    /// A TLB rewrite invalidated every recompiled block.
    pub jit_flush_needed: bool,
    /// Instruction-fetch page cache: a virtual page and its RAM offset.
    pub fetch_page: Option<(u32, usize)>,
}

/// The fetch cache says what the TLB says.
#[verifier::opaque]
pub open spec fn fetch_ok(t: Seq<TlbEntry>, cached: Option<(u32, usize)>) -> bool {
    match cached {
        Some((page, base)) => {
            &&& base + 4096 <= RAM_SIZE
            &&& forall|v: u32| v / 4096 == page ==> #[trigger] translated(t, v) == base + v % 4096
        },
        None => true,
    }
}

fn zeroed(n: usize) -> (v: Vec<u8>)
    ensures
        v@ == Seq::new(n as nat, |i: int| 0u8),
{
    let v: Vec<u8> = vec![0u8; n];
    assert(v@ =~= Seq::new(n as nat, |i: int| 0u8));
    v
}

impl Bus {
    pub open spec fn model(&self) -> BusModel {
        BusModel {
            mem: self.mem.model(),
            mmio: self.mmio@,
            ee: self.ee,
            iop: self.iop,
            gif: self.gif.tag(),
            front: self.gs.model(),
            fifo0: self.sif.fifo0@,
            fifo1: self.sif.fifo1@,
            sif0: self.sif.ee0,
            sif1: self.sif.ee1,
            iop_sif0: self.sif.iop0,
            iop_sif1: self.sif.iop1,
            cdvd: self.cdvd.model(),
            sio: self.sio2.model(),
            timers: self.iop_timers@,
            iop_mmio: self.iop_mmio@,
            tlb: self.tlb.entries@,
            reply: self.reply,
            flush: self.jit_flush_needed,
            irqs: self.dma_irqs@,
            events: self.events@,
            tty: self.tty_buffer@,
        }
    }

    pub closed spec fn wf(&self) -> bool {
        &&& self.mem.wf()
        &&& self.tlb.wf()
        &&& self.mmio@.len() == 0x1_0000
        &&& self.iop_mmio@.len() == 0x1_0000
        &&& self.gs.wf()
        &&& self.gif.wf()
        &&& self.ee.wf()
        &&& self.sif.wf()
        &&& self.sif.events@.len() == 0
        &&& self.iop_timers@.len() == 6
        &&& self.cdvd.wf()
        &&& self.sio2.wf()
        &&& fetch_ok(self.tlb.entries@, self.fetch_page)
    }

    pub fn new(bios: Vec<u8>, gs_threaded: bool, region: Region) -> (b: Self)
        requires
            bios@.len() == BIOS_SIZE,
        ensures
            b.wf(),
            b.model() == BusModel::reset(bios@, gs_threaded, region),
    {
        proof {
            reveal(fetch_ok);
        }
        let mut mmio = zeroed(0x1_0000);
        write_le(&mut mmio, 0xF590, 4, 0x1201);
        let idle = EeDmaChannel::new();
        let iop_idle = IopDmaChannel::new();
        let timer = IopTimer { base: 0, base_cycle: 0, mode: 0, target: 0, last_check: 0 };
        let b = Bus {
            mem: Memory::new(bios),
            tlb: Tlb::new(),
            mmio,
            gs: if gs_threaded {
                GsFront::new()
            } else {
                GsFront::inline()
            },
            gif: Gif::new(),
            ee: EeRegs {
                now: 0,
                timers_due: 0,
                intc_stat: 0,
                intc_mask: 0,
                intc_ready_at: u64::MAX,
                d_stat: 0,
                d_mask: 0,
                rdram_sdevid: 0,
                region,
                vif0: idle,
                vif1: idle,
                gif: idle,
                ipu_to: idle,
                spr_from: idle,
                spr_to: idle,
            },
            sif: SifLink::new(),
            iop: IopRegs {
                i_stat: 0,
                i_mask: 0,
                i_ctrl: 0,
                dicr: 0,
                dicr2: 0,
                sio2in: iop_idle,
                sio2out: iop_idle,
                cdvd: iop_idle,
                spu0: iop_idle,
                spu1: iop_idle,
                sio2out_deferred: false,
                cdvd_deferred: false,
                cdvd_done_at: None,
                resets: 0,
            },
            iop_timers: vec![timer; 6],
            iop_mmio: zeroed(0x1_0000),
            cdvd: Cdvd::new(),
            sio2: Sio2::new(),
            dma_irqs: Vec::new(),
            events: Vec::new(),
            reply: 0,
            tty_buffer: String::new(),
            jit_flush_needed: false,
            fetch_page: None,
        };
        proof {
            let m = b.model();
            let r = BusModel::reset(bios@, gs_threaded, region);
            assert(m.timers =~= r.timers);
            assert(m.fifo0 =~= r.fifo0 && m.fifo1 =~= r.fifo1);
            assert(m.irqs =~= r.irqs && m.events =~= r.events && m.tty =~= r.tty);
            assert(m == r);
        }
        b
    }

    // --- interrupts -------------------------------------------------------------

    /// Queue an EE DMAC completion interrupt a little into the future.
    fn ee_dma_irq(&mut self, ch: u32)
        requires
            old(self).wf(),
            ch < 32,
        ensures
            final(self).wf(),
            final(self).model() == old(self).model().dma_irq(ch),
    {
        self.dma_irqs.push((1u32 << ch, self.ee.now + DMA_IRQ_DELAY));
        self.ee.timers_due = 0;
    }

    /// Re-arm the INTC line after any change to its status or mask.
    ///
    /// Software polls INTC_STAT directly: the OSD waits for vertical blank
    /// by clearing bit 2 and spinning on it, and with no window at all the
    /// kernel's own handler acknowledges the bit before the spin can ever
    /// read it.
    fn intc_changed(&mut self)
        requires
            old(self).wf(),
        ensures
            final(self).wf(),
            final(self).model() == (BusModel { ee: old(self).ee.settled(), ..old(self).model() }),
    {
        if self.ee.intc_stat & self.ee.intc_mask == 0 {
            self.ee.intc_ready_at = u64::MAX;
        } else if self.ee.intc_ready_at == u64::MAX {
            self.ee.intc_ready_at = self.ee.now + INTC_LATENCY;
        }
    }

    /// Raise INTC sources.
    pub fn raise_intc(&mut self, mask: u32)
        requires
            old(self).wf(),
        ensures
            final(self).wf(),
            final(self).model() == (BusModel { ee: old(self).ee.raised(mask), ..old(self).model() }),
    {
        self.ee.intc_stat = self.ee.intc_stat | mask;
        self.intc_changed();
    }

    /// EE interrupt lines: INT0 = INTC.
    pub fn ee_int0_pending(&self) -> (r: bool)
        ensures
            r == (self.ee.now >= self.ee.intc_ready_at),
    {
        self.ee.now >= self.ee.intc_ready_at
    }

    /// INT1 = DMAC.
    pub fn ee_int1_pending(&self) -> (r: bool)
        ensures
            r == (self.ee.d_stat & self.ee.d_mask & 0x3FF != 0),
    {
        self.ee.d_stat & self.ee.d_mask & 0x3FF != 0
    }

    /// Fold a pending GS interrupt edge into EE INTC bit 0.
    pub(crate) fn gs_sync_int(&mut self)
        requires
            old(self).wf(),
        ensures
            final(self).wf(),
            final(self).model() == old(self).model().gs_synced(),
    {
        if self.gs.take_irq() {
            self.raise_intc(1);
        }
    }

    // --- translation --------------------------------------------------------------

    /// Record a TLB entry (from tlbwi) and flush the translation caches.
    pub fn ee_tlb_write(&mut self, idx: usize, mask: u32, hi: u32, lo0: u32, lo1: u32)
        requires
            old(self).wf(),
        ensures
            final(self).wf(),
            final(self).model() == (if idx < 48 {
                BusModel {
                    tlb: old(self).tlb.entries@.update(idx as int, TlbEntry { mask, hi, lo0, lo1 }),
                    flush: true,
                    ..old(self).model()
                }
            } else {
                old(self).model()
            }),
    {
        proof {
            reveal(fetch_ok);
        }
        if self.tlb.write(idx, TlbEntry { mask, hi, lo0, lo1 }) {
            self.fetch_page = None;
            // Blocks were keyed by virtual pc under the old mapping.
            self.jit_flush_needed = true;
        }
    }

    fn translate(&mut self, vaddr: u32) -> (p: u32)
        requires
            old(self).wf(),
        ensures
            final(self).wf(),
            final(self).model() == old(self).model(),
            p == old(self).model().phys(vaddr),
    {
        self.tlb.translate(vaddr)
    }

    /// Physical RAM address a virtual EE address maps to, if RAM at all.
    pub fn ram_phys_of(&mut self, vaddr: u32) -> (r: Option<u32>)
        requires
            old(self).wf(),
        ensures
            final(self).wf(),
            final(self).model() == old(self).model(),
            r == (if old(self).model().phys(vaddr) < RAM_SIZE {
                Some(old(self).model().phys(vaddr))
            } else {
                None
            }),
    {
        let phys = self.translate(vaddr);
        if (phys as usize) < RAM_SIZE {
            Some(phys)
        } else {
            None
        }
    }

    // --- the DMAC ------------------------------------------------------------------

    /// One quadword for the GIF.
    fn feed_gif(&mut self, lo: u64, hi: u64)
        requires
            old(self).wf(),
        ensures
            final(self).wf(),
            final(self).model() == old(self).model().gif_fed(lo, hi),
    {
        let ghost start = self.model();
        let out = self.gif.process(lo, hi);
        let n: usize = out.len();
        for i in 0..n
            invariant
                n == out@.len(),
                self.wf(),
                start.gif.fed(lo, hi).1 == out@,
                self.model() == (BusModel {
                    gif: start.gif.fed(lo, hi).0,
                    front: regs::front_all(start.front, out@.subrange(0, i as int)),
                    ..start
                }),
        {
            let w = &out[i];
            self.gs.put_reg(w.reg, w.v);
            assert(out@.subrange(0, i + 1).drop_last() =~= out@.subrange(0, i as int));
        }
        assert(out@.subrange(0, n as int) =~= out@);
    }

    fn feed_gif_packets(&mut self, out: &Vec<Packet>)
        requires
            old(self).wf(),
        ensures
            final(self).wf(),
            final(self).model() == old(self).model().gif_packets(out@),
    {
        let ghost start = self.model();
        let n: usize = out.len();
        for i in 0..n
            invariant
                n == out@.len(),
                self.wf(),
                self.model() == start.gif_packets(out@.subrange(0, i as int)),
        {
            match out[i] {
                Packet::Data(q) => self.feed_gif(pair_of(q.w0, q.w1), pair_of(q.w2, q.w3)),
                Packet::Tag(a, b) => self.feed_gif(pair_of(a, b), 0),
            }
            assert(out@.subrange(0, i + 1).drop_last() =~= out@.subrange(0, i as int));
        }
        assert(out@.subrange(0, n as int) =~= out@);
    }

    fn send_vif(&mut self, unit: u8, out: &Vec<Packet>)
        requires
            old(self).wf(),
        ensures
            final(self).wf(),
            final(self).model() == (BusModel {
                events: old(self).events@ + vif_stream(unit, out@),
                ..old(self).model()
            }),
    {
        let ghost start = self.model();
        let n: usize = out.len();
        assert(out@.subrange(0, 0) =~= Seq::<Packet>::empty());
        assert(self.events@ =~= start.events + vif_stream(unit, out@.subrange(0, 0)));
        for i in 0..n
            invariant
                n == out@.len(),
                self.wf(),
                self.model() == (BusModel {
                    events: start.events + vif_stream(unit, out@.subrange(0, i as int)),
                    ..start
                }),
        {
            let ghost before = self.events@;
            match out[i] {
                Packet::Data(q) => {
                    self.events.push(Event::Vif { unit, word: q.w0 });
                    self.events.push(Event::Vif { unit, word: q.w1 });
                    self.events.push(Event::Vif { unit, word: q.w2 });
                    self.events.push(Event::Vif { unit, word: q.w3 });
                },
                Packet::Tag(a, b) => {
                    self.events.push(Event::Vif { unit, word: a });
                    self.events.push(Event::Vif { unit, word: b });
                },
            }
            assert(self.events@ =~= before + regs::vif_events(unit, out@[i as int]));
            assert(out@.subrange(0, i + 1).drop_last() =~= out@.subrange(0, i as int));
            assert(self.events@ =~= start.events + vif_stream(unit, out@.subrange(0, i + 1)));
        }
        assert(out@.subrange(0, n as int) =~= out@);
    }

    fn send_ipu(&mut self, out: &Vec<Packet>)
        requires
            old(self).wf(),
        ensures
            final(self).wf(),
            final(self).model() == (BusModel { events: old(self).events@ + ipu_stream(out@), ..old(self).model() }),
    {
        let ghost start = self.model();
        let n: usize = out.len();
        assert(out@.subrange(0, 0) =~= Seq::<Packet>::empty());
        assert(self.events@ =~= start.events + ipu_stream(out@.subrange(0, 0)));
        for i in 0..n
            invariant
                n == out@.len(),
                self.wf(),
                self.model() == (BusModel {
                    events: start.events + ipu_stream(out@.subrange(0, i as int)),
                    ..start
                }),
        {
            if let Packet::Data(q) = out[i] {
                self.events.push(Event::IpuIn(q));
            }
            assert(out@.subrange(0, i + 1).drop_last() =~= out@.subrange(0, i as int));
            assert(self.events@ =~= start.events + ipu_stream(out@.subrange(0, i + 1)));
        }
        assert(out@.subrange(0, n as int) =~= out@);
    }

    /// Move as much SIF traffic as the armed channels allow, and pass on
    /// what it made known.
    pub(crate) fn pump_sif(&mut self)
        requires
            old(self).wf(),
        ensures
            final(self).wf(),
            final(self).model() == old(self).model().sif_pumped(),
    {
        let ghost start = self.model();
        assert(self.sif.events@ =~= Seq::empty());
        assert(self.sif.link(self.mem) == start.link());
        self.sif.pump_sif(&mut self.mem);
        let ghost l = start.link().pumped(sif::ROUND_LIMIT as int);
        let mut events: Vec<SifEvent> = Vec::new();
        std::mem::swap(&mut events, &mut self.sif.events);
        assert(self.model() == start.with_link(l));
        let n: usize = events.len();
        for i in 0..n
            invariant
                n == events@.len(),
                events@ == l.events,
                l == start.link().pumped(sif::ROUND_LIMIT as int),
                self.wf(),
                self.model() == start.with_link(l).sif_events(events@.subrange(0, i as int)),
        {
            self.sif_event(events[i]);
            assert(events@.subrange(0, i + 1).drop_last() =~= events@.subrange(0, i as int));
        }
        assert(events@.subrange(0, n as int) =~= events@);
    }

    fn sif_event(&mut self, e: SifEvent)
        requires
            old(self).wf(),
        ensures
            final(self).wf(),
            final(self).model() == old(self).model().sif_event(e),
    {
        match e {
            SifEvent::Ee0 => self.ee_dma_irq(5),
            SifEvent::Ee1 => self.ee_dma_irq(6),
            SifEvent::Iop0 => self.iop_dma_irq(9),
            SifEvent::Iop1 => self.iop_dma_irq(10),
            SifEvent::Reset => self.iop_rebooting(),
        }
    }

    fn iop_dma_irq(&mut self, ch: u32)
        requires
            old(self).wf(),
            ch < 14,
        ensures
            final(self).wf(),
            final(self).model() == (BusModel { iop: old(self).iop.dma_done(ch), ..old(self).model() }),
    {
        self.iop.iop_dma_irq(ch);
    }

    fn iop_rebooting(&mut self)
        requires
            old(self).wf(),
        ensures
            final(self).wf(),
            final(self).model() == old(self).model().sif_event(SifEvent::Reset),
    {
        self.iop.resets = self.iop.resets.wrapping_add(1);
        if self.iop.resets >= 3 {
            self.cdvd.drive.ready_at = self.ee.now + CDVD_RESETTLE;
        }
    }

    fn channel(&self, id: Channel) -> (c: EeDmaChannel)
        ensures
            c == self.model().channel(id),
    {
        match id {
            Channel::Vif0 => self.ee.vif0,
            Channel::Vif1 => self.ee.vif1,
            Channel::Gif => self.ee.gif,
            Channel::IpuTo => self.ee.ipu_to,
            Channel::Sif0 => self.sif.ee0,
            Channel::Sif1 => self.sif.ee1,
            Channel::SprFrom => self.ee.spr_from,
            Channel::SprTo => self.ee.spr_to,
        }
    }

    fn set_channel(&mut self, id: Channel, c: EeDmaChannel)
        requires
            old(self).wf(),
            c.wf(),
        ensures
            final(self).wf(),
            final(self).model() == old(self).model().with_channel(id, c),
    {
        match id {
            Channel::Vif0 => self.ee.vif0 = c,
            Channel::Vif1 => self.ee.vif1 = c,
            Channel::Gif => self.ee.gif = c,
            Channel::IpuTo => self.ee.ipu_to = c,
            Channel::Sif0 => self.sif.ee0 = c,
            Channel::Sif1 => self.sif.ee1 = c,
            Channel::SprFrom => self.ee.spr_from = c,
            Channel::SprTo => self.ee.spr_to = c,
        }
    }

    fn start_vif(&mut self, id: Channel, unit: u8)
        requires
            old(self).wf(),
            unit <= 1,
        ensures
            final(self).wf(),
            final(self).model() == old(self).model().vif_started(id, unit),
    {
        let mut c = self.channel(id);
        let (out, done) = pump(&mut c, &self.mem, true);
        self.set_channel(id, c);
        self.send_vif(unit, &out);
        if done {
            self.ee_dma_irq(unit as u32);
        }
    }

    fn start_gif(&mut self)
        requires
            old(self).wf(),
        ensures
            final(self).wf(),
            final(self).model() == old(self).model().gif_started(),
    {
        let mut c = self.ee.gif;
        let (out, done) = pump(&mut c, &self.mem, true);
        self.set_channel(Channel::Gif, c);
        if done {
            self.ee_dma_irq(2);
        }
        self.feed_gif_packets(&out);
        self.gs_sync_int();
    }

    fn start_ipu(&mut self)
        requires
            old(self).wf(),
        ensures
            final(self).wf(),
            final(self).model() == old(self).model().ipu_started(),
    {
        let mut c = self.ee.ipu_to;
        let (out, done) = pump(&mut c, &self.mem, false);
        self.set_channel(Channel::IpuTo, c);
        self.send_ipu(&out);
        if done {
            self.ee_dma_irq(4);
        }
    }

    fn start_spr(&mut self, to: bool)
        requires
            old(self).wf(),
        ensures
            final(self).wf(),
            final(self).model() == old(self).model().spr_started(to),
    {
        let id = if to {
            Channel::SprTo
        } else {
            Channel::SprFrom
        };
        let mut c = self.channel(id);
        let done = pump_spr(&mut c, &mut self.mem, to);
        self.set_channel(id, c);
        if done {
            self.ee_dma_irq(if to { 9 } else { 8 });
        }
    }

    /// Run a started channel to completion.
    fn start(&mut self, id: Channel)
        requires
            old(self).wf(),
        ensures
            final(self).wf(),
            final(self).model() == old(self).model().started(id),
    {
        proof {
            reveal(BusModel::started);
        }
        match id {
            Channel::Vif0 => self.start_vif(id, 0),
            Channel::Vif1 => self.start_vif(id, 1),
            Channel::Gif => self.start_gif(),
            Channel::IpuTo => self.start_ipu(),
            Channel::Sif0 | Channel::Sif1 => self.pump_sif(),
            Channel::SprFrom => self.start_spr(false),
            Channel::SprTo => self.start_spr(true),
        }
    }

    fn write_channel(&mut self, id: Channel, off: u32, v: u32)
        requires
            old(self).wf(),
        ensures
            final(self).wf(),
            final(self).model() == old(self).model().channel_written(id, off as int, v),
    {
        let mut c = self.channel(id);
        assert(c.wf());
        match off {
            0x00 => c.chcr = v,
            0x10 => c.madr = v,
            0x20 => c.qwc = v % 0x1_0000,
            0x30 => c.tadr = v,
            _ => c.sadr = v % 0x4000,
        }
        self.set_channel(id, c);
        if off == 0 && v & EE_CHCR_STR != 0 {
            self.start(id);
        }
    }

    // --- MMIO ------------------------------------------------------------------------

    fn write_shadow(&mut self, addr: u32, n: usize, v: u64)
        requires
            old(self).wf(),
            is_size(n),
            0x1000_0000 <= addr,
            addr + n <= 0x1001_0000,
        ensures
            final(self).wf(),
            final(self).model() == old(self).model().shadow_put(addr, n, v),
    {
        write_le(&mut self.mmio, (addr % 0x1_0000) as usize, n, v);
    }

    /// A DMA channel with nothing behind it: complete the transfer so the
    /// software does not wait on it forever.
    fn ee_dma_stub(&mut self, addr: u32, ch: u32, n: usize, v: u64)
        requires
            old(self).wf(),
            is_size(n),
            0x1000_0000 <= addr,
            addr + n <= 0x1001_0000,
            ch < 32,
        ensures
            final(self).wf(),
            final(self).model() == old(self).model().stub_written(addr, ch, n, v),
    {
        if v & 0x100 == 0 {
            self.write_shadow(addr, n, v);
        } else {
            self.write_shadow(addr, n, v & !0x100u64);
            self.ee_dma_irq(ch);
        }
    }

    fn write_vif_fifo(&mut self, unit: u8, n: usize, v: u64)
        requires
            old(self).wf(),
        ensures
            final(self).wf(),
            final(self).model() == (BusModel {
                events: old(self).events@ + vif_words(unit, n, v),
                ..old(self).model()
            }),
    {
        let ghost before = self.events@;
        if n == 8 || n == 4 {
            self.events.push(Event::Vif { unit, word: (v % 0x1_0000_0000) as u32 });
        }
        if n == 8 {
            self.events.push(Event::Vif { unit, word: (v / 0x1_0000_0000) as u32 });
        }
        assert(self.events@ =~= before + vif_words(unit, n, v));
    }

    /// A quadword FIFO written by programmed I/O: assembled in the shadow
    /// and handed over once its last byte lands.
    fn write_quad_fifo(&mut self, addr: u32, n: usize, v: u64, ipu: bool)
        requires
            old(self).wf(),
            is_size(n),
            0x1000_0000 <= addr,
            addr + n <= 0x1001_0000,
        ensures
            final(self).wf(),
            final(self).model() == (if ipu {
                old(self).model().ipu_fifo_written(addr, n, v)
            } else {
                old(self).model().gif_fifo_written(addr, n, v)
            }),
    {
        self.write_shadow(addr, n, v);
        if (addr % 16) as usize + n >= 16 {
            let base: usize = (addr % 0x1_0000 / 16 * 16) as usize;
            if ipu {
                self.events.push(Event::IpuIn(read_quad(&self.mmio, base)));
            } else {
                let lo: u64 = read_le(&self.mmio, base, 8);
                let hi: u64 = read_le(&self.mmio, base + 8, 8);
                self.feed_gif(lo, hi);
            }
        }
    }

    /// The interrupt registers.
    fn write_interrupts(&mut self, r: u32, w: u32)
        requires
            old(self).wf(),
        ensures
            final(self).wf(),
            final(self).model() == old(self).model().interrupts_written(r as int, w),
    {
        if r == 0x1000_E010 {
            self.ee.d_stat = self.ee.d_stat & !(w % 0x1_0000);
            self.ee.d_mask = self.ee.d_mask ^ (w / 0x1_0000);
        } else if r == 0x1000_F000 {
            self.ee.intc_stat = self.ee.intc_stat & !w;
            self.intc_changed();
        } else {
            self.ee.intc_mask = self.ee.intc_mask ^ (w % 0x1_0000);
            self.intc_changed();
        }
    }

    /// The RDRAM controller's registers.
    fn write_mch(&mut self, r: u32, v: u64)
        requires
            old(self).wf(),
        ensures
            final(self).wf(),
            final(self).model() == old(self).model().mch_written(r as int, v),
    {
        let w: u32 = (v % 0x1_0000_0000) as u32;
        if r == 0x1000_F410 {
            write_le(&mut self.mmio, 0xF410, 4, (w % 0x8000_0000) as u64);
        } else {
            if bits(v, 16, 0xFFF) == 0x21 && bits(v, 6, 0xF) == 1 && read_le(&self.mmio, 0xF440, 4) / 128 % 2 == 0 {
                self.ee.rdram_sdevid = 0;
            }
            write_le(&mut self.mmio, 0xF430, 4, (w % 0x8000_0000) as u64);
        }
    }

    fn write_mmio(&mut self, addr: u32, n: usize, v: u64)
        requires
            old(self).wf(),
            is_size(n),
            0x1000_0000 <= addr,
            addr + n <= 0x1001_0000,
        ensures
            final(self).wf(),
            final(self).model() == old(self).model().mmio_written(addr, n, v),
    {
        proof {
            reveal(BusModel::mmio_written);
        }
        let r: u32 = addr - addr % 4;
        let w: u32 = (v % 0x1_0000_0000) as u32;
        if r < 0x1000_2000 {
            self.events.push(Event::Timer { addr, v: w });
            self.ee.timers_due = 0;
        } else if r == 0x1000_F180 {
            self.tty_buffer.push(((v % 256) as u8) as char);
        } else if let Some((id, off)) = channel_at(r) {
            self.write_channel(id, off, w);
        } else if r >= 0x1000_4000 && r <= 0x1000_4FF0 {
            self.write_vif_fifo(0, n, v);
        } else if r >= 0x1000_5000 && r <= 0x1000_5FF0 {
            self.write_vif_fifo(1, n, v);
        } else if r == 0x1000_B000 {
            self.ee_dma_stub(addr, 3, n, v);
        } else if r == 0x1000_C800 {
            self.ee_dma_stub(addr, 7, n, v);
        } else if r >= 0x1000_2000 && r <= 0x1000_203C {
            self.events.push(Event::Ipu { addr, v, wide: n == 8 });
        } else if r >= 0x1000_7010 && r <= 0x1000_701C {
            self.write_quad_fifo(addr, n, v, true);
        } else if r >= 0x1000_6000 && r <= 0x1000_6FF0 {
            self.write_quad_fifo(addr, n, v, false);
        } else if r == 0x1000_E010 || r == 0x1000_F000 || r == 0x1000_F010 {
            self.write_interrupts(r, w);
        } else if r >= 0x1000_F200 && r <= 0x1000_F26C {
            self.events.push(Event::Sif { iop: false, addr, v: w });
        } else if r == 0x1000_F410 || r == 0x1000_F430 {
            self.write_mch(r, v);
        } else {
            self.write_shadow(addr, n, v);
        }
    }

    /// MCH_DRD: RDRAM init handshake, mirrors the documented sequence.
    fn read_drd(&mut self) -> (v: u64)
        requires
            old(self).wf(),
        ensures
            final(self).wf(),
            v == old(self).model().rdram_answer(),
            final(self).model() == old(self).model().mmio_read(0x1000_F440),
    {
        let ricm: u64 = read_le(&self.mmio, 0xF430, 4);
        if bits(ricm, 6, 0xF) != 0 {
            return 0;
        }
        match bits(ricm, 16, 0xFFF) {
            0x21 => {
                if self.ee.rdram_sdevid < RDRAM_DEVICES {
                    self.ee.rdram_sdevid = self.ee.rdram_sdevid + 1;
                    0x1F
                } else {
                    0
                }
            },
            0x23 => 0x0D0D,
            0x24 => 0x0090,
            0x40 => bits(ricm, 0, 0x1F),
            _ => 0,
        }
    }

    #[verifier::rlimit(60)]
    fn read_mmio(&mut self, addr: u32, n: usize) -> (v: u64)
        requires
            old(self).wf(),
            is_size(n),
            0x1000_0000 <= addr,
            addr + n <= 0x1001_0000,
        ensures
            final(self).wf(),
            v == old(self).model().mmio_value(addr, n),
            final(self).model() == old(self).model().mmio_read(addr),
    {
        let r: u32 = addr - addr % 4;
        if r <= 0x1000_203C || (r >= 0x1000_F200 && r <= 0x1000_F26C) {
            return self.reply;
        }
        if r == 0x1000_F440 {
            return self.read_drd();
        }
        if let Some((id, off)) = channel_at(r) {
            let c = self.channel(id);
            return match off {
                0x00 => c.chcr,
                0x10 => c.madr,
                0x20 => c.qwc,
                0x30 => c.tadr,
                _ => c.sadr,
            } as u64;
        }
        match r {
            0x1000_F130 | 0x1000_F430 | 0x1000_3020 | 0x1000_7000 | 0x1000_7004 | 0x1000_7008 | 0x1000_700C => 0,
            0x1000_3800 | 0x1000_3C00 => read_le(&self.mmio, (r % 0x1_0000) as usize, 4) & VIF_STAT_FDR,
            0x1000_E010 => (self.ee.d_stat | (self.ee.d_mask << 16)) as u64,
            0x1000_F000 => self.ee.intc_stat as u64,
            0x1000_F010 => self.ee.intc_mask as u64,
            0x1000_F520 => read_le(&self.mmio, 0xF590, 4),
            _ => read_le(&self.mmio, (addr % 0x1_0000) as usize, n),
        }
    }

    // --- the GS's privileged registers -----------------------------------------------

    fn read_gs_priv(&self, addr: u32, n: usize) -> (v: u64)
        requires
            self.wf(),
        ensures
            v == self.model().gs_value(addr, n),
    {
        let v: u64 = self.gs.get_priv(addr - addr % 8);
        if n == 8 {
            v
        } else if addr / 4 % 2 == 1 {
            v / 0x1_0000_0000
        } else {
            v % 0x1_0000_0000
        }
    }

    fn write_gs_priv(&mut self, addr: u32, n: usize, v: u64)
        requires
            old(self).wf(),
        ensures
            final(self).wf(),
            final(self).model() == old(self).model().gs_written(addr, n, v),
    {
        let reg: u32 = addr - addr % 8;
        let w: u64 = if n == 8 {
            v
        } else {
            // Narrower access: merge into the 64-bit register.
            let cur: u64 = self.gs.get_priv(reg);
            let low: u64 = v % 0x1_0000_0000;
            if addr / 4 % 2 == 1 {
                cur % 0x1_0000_0000 + 0x1_0000_0000 * low
            } else {
                cur - cur % 0x1_0000_0000 + low
            }
        };
        self.gs.put_priv(reg, w);
        if addr & 0x1FF0 == 0x10 {
            let region = match bits(w, 13, 3) {
                2 => Region::Ntsc,
                3 => Region::Pal,
                _ => self.ee.region,
            };
            self.set_region(region);
        }
        self.gs_sync_int();
    }

    /// Follow the video timing software programmed.
    fn set_region(&mut self, region: Region)
        requires
            old(self).wf(),
        ensures
            final(self).wf(),
            final(self).model() == old(self).model().retimed(region),
    {
        if region != self.ee.region {
            let ghost start = self.model();
            self.events.push(Event::Rebase(self.ee.region));
            let hblank: u64 = self.ee.region.iop_hblank_div();
            let now: u64 = self.ee.now;
            let ghost want = start.retimed(region).timers;
            for t in 0..6usize
                invariant
                    self.iop_timers@.len() == 6,
                    start.timers.len() == 6,
                    hblank == start.ee.region.hblank(),
                    hblank > 0,
                    now == start.ee.now,
                    region != start.ee.region,
                    want == start.retimed(region).timers,
                    self.wf(),
                    self.model() == (BusModel {
                        events: start.events.push(Event::Rebase(start.ee.region)),
                        timers: self.iop_timers@,
                        ..start
                    }),
                    forall|i: int| 0 <= i < t ==> self.iop_timers@[i] == want[i],
                    forall|i: int| t <= i < 6 ==> self.iop_timers@[i] == start.timers[i],
            {
                let mut timer = self.iop_timers[t];
                timer.rebase(t, now, hblank);
                self.iop_timers[t] = timer;
            }
            assert(self.iop_timers@ =~= want);
            self.ee.region = region;
        }
    }

    // --- EE access ---------------------------------------------------------------------

    /// Whether a read at this address is answered by a device outside the
    /// bus, whose answer [`Bus::reply`] has to hold.
    pub fn asks_device(&mut self, vaddr: u32) -> (r: bool)
        requires
            old(self).wf(),
        ensures
            final(self).wf(),
            final(self).model() == old(self).model(),
            r == BusModel::device(old(self).model().phys(vaddr)),
    {
        let addr = self.translate(vaddr);
        let r: u32 = addr - addr % 4;
        if addr >= 0x1100_0000 {
            addr <= 0x1100_FFFF
        } else {
            addr >= 0x1000_0000 && addr <= 0x1000_FFFF && (r <= 0x1000_203C || (r >= 0x1000_F200 && r <= 0x1000_F26C))
        }
    }

    /// Whether an access of `n` bytes stays inside the memory it starts in.
    pub fn fits_at(&mut self, vaddr: u32, n: usize) -> (r: bool)
        requires
            old(self).wf(),
            is_size(n),
        ensures
            final(self).wf(),
            final(self).model() == old(self).model(),
            r == BusModel::fits(old(self).model().phys(vaddr), n),
    {
        let addr = self.translate(vaddr);
        let end: u64 = addr as u64 + n as u64;
        match addr {
            0x0000_0000..=0x01FF_FFFF => end <= 0x0200_0000,
            0x7000_0000..=0x7000_3FFF => end <= 0x7000_4000,
            0x1000_0000..=0x1000_FFFF => end <= 0x1001_0000,
            0x1C00_0000..=0x1C1F_FFFF => end <= 0x1C20_0000,
            0x1FC0_0000..=0x1FFF_FFFF => end <= 0x2000_0000,
            _ => true,
        }
    }

    pub fn read(&mut self, vaddr: u32, n: usize) -> (v: u64)
        requires
            old(self).wf(),
            is_size(n),
            BusModel::fits(old(self).model().phys(vaddr), n),
        ensures
            final(self).wf(),
            v == old(self).model().phys_value(old(self).model().phys(vaddr), n),
            final(self).model() == old(self).model().phys_read(old(self).model().phys(vaddr)),
    {
        let addr = self.translate(vaddr);
        match addr {
            0x0000_0000..=0x01FF_FFFF => read_le(&self.mem.ram, addr as usize, n),
            0x7000_0000..=0x7000_3FFF => read_le(&self.mem.spad, (addr - 0x7000_0000) as usize, n),
            0x1000_0000..=0x1000_FFFF => self.read_mmio(addr, n),
            0x1100_0000..=0x1100_FFFF => self.reply,
            0x1200_0000..=0x1200_1FFF => self.read_gs_priv(addr, n),
            0x1C00_0000..=0x1C1F_FFFF => read_le(&self.mem.iop_ram, (addr - 0x1C00_0000) as usize, n),
            0x1FC0_0000..=0x1FFF_FFFF => read_le(&self.mem.bios, (addr - 0x1FC0_0000) as usize, n),
            0x1F40_2000..=0x1F40_203F => self.cdvd.read(addr, self.ee.now) as u64,
            0x1E00_0000..=0x1E3F_FFFF => match n {
                8 => u64::MAX,
                4 => 0xFFFF_FFFF,
                2 => 0xFFFF,
                _ => 0xFF,
            },
            0x1A00_0000..=0x1A00_FFFF => if addr % 256 == 6 {
                2
            } else {
                0
            },
            _ => 0,
        }
    }

    pub fn write(&mut self, vaddr: u32, n: usize, v: u64)
        requires
            old(self).wf(),
            is_size(n),
            BusModel::fits(old(self).model().phys(vaddr), n),
        ensures
            final(self).wf(),
            final(self).model() == old(self).model().phys_written(old(self).model().phys(vaddr), n, v),
    {
        let addr = self.translate(vaddr);
        match addr {
            0x0000_0000..=0x01FF_FFFF => self.mem.ram_write(addr as usize, n, v),
            0x7000_0000..=0x7000_3FFF => write_le(&mut self.mem.spad, (addr - 0x7000_0000) as usize, n, v),
            0x1000_0000..=0x1000_FFFF => self.write_mmio(addr, n, v),
            0x1100_0000..=0x1100_FFFF => self.events.push(Event::Vu { addr, size: n, v }),
            0x1200_0000..=0x1200_1FFF => self.write_gs_priv(addr, n, v),
            0x1C00_0000..=0x1C1F_FFFF => write_le(&mut self.mem.iop_ram, (addr - 0x1C00_0000) as usize, n, v),
            _ => {},
        }
    }

    pub fn read8(&mut self, vaddr: u32) -> (v: u8)
        requires
            old(self).wf(),
            BusModel::fits(old(self).model().phys(vaddr), 1),
        ensures
            final(self).wf(),
            v == old(self).model().phys_value(old(self).model().phys(vaddr), 1) % 256,
            final(self).model() == old(self).model().phys_read(old(self).model().phys(vaddr)),
    {
        (self.read(vaddr, 1) % 256) as u8
    }

    pub fn read16(&mut self, vaddr: u32) -> (v: u16)
        requires
            old(self).wf(),
            BusModel::fits(old(self).model().phys(vaddr), 2),
        ensures
            final(self).wf(),
            v == old(self).model().phys_value(old(self).model().phys(vaddr), 2) % 0x1_0000,
            final(self).model() == old(self).model().phys_read(old(self).model().phys(vaddr)),
    {
        (self.read(vaddr, 2) % 0x1_0000) as u16
    }

    pub fn read32(&mut self, vaddr: u32) -> (v: u32)
        requires
            old(self).wf(),
            BusModel::fits(old(self).model().phys(vaddr), 4),
        ensures
            final(self).wf(),
            v == old(self).model().phys_value(old(self).model().phys(vaddr), 4) % 0x1_0000_0000,
            final(self).model() == old(self).model().phys_read(old(self).model().phys(vaddr)),
    {
        (self.read(vaddr, 4) % 0x1_0000_0000) as u32
    }

    pub fn read64(&mut self, vaddr: u32) -> (v: u64)
        requires
            old(self).wf(),
            BusModel::fits(old(self).model().phys(vaddr), 8),
        ensures
            final(self).wf(),
            v == old(self).model().phys_value(old(self).model().phys(vaddr), 8),
            final(self).model() == old(self).model().phys_read(old(self).model().phys(vaddr)),
    {
        self.read(vaddr, 8)
    }

    /// 128-bit read (lq), low half first; the processor aligns the address
    /// to 16 bytes.
    pub fn read128(&mut self, vaddr: u32) -> (v: [u64; 2])
        requires
            old(self).wf(),
            vaddr + 8 <= u32::MAX,
            BusModel::fits(old(self).model().phys(vaddr), 8),
            BusModel::fits(old(self).model().phys((vaddr + 8) as u32), 8),
        ensures
            final(self).wf(),
            ({
                let m = old(self).model();
                let half = m.phys_read(m.phys(vaddr));
                &&& v[0] == m.phys_value(m.phys(vaddr), 8)
                &&& v[1] == half.phys_value(m.phys((vaddr + 8) as u32), 8)
                &&& final(self).model() == half.phys_read(m.phys((vaddr + 8) as u32))
            }),
    {
        let lo: u64 = self.read(vaddr, 8);
        let hi: u64 = self.read(vaddr + 8, 8);
        [lo, hi]
    }

    pub fn write8(&mut self, vaddr: u32, v: u8)
        requires
            old(self).wf(),
            BusModel::fits(old(self).model().phys(vaddr), 1),
        ensures
            final(self).wf(),
            final(self).model() == old(self).model().phys_written(old(self).model().phys(vaddr), 1, v as u64),
    {
        self.write(vaddr, 1, v as u64)
    }

    pub fn write16(&mut self, vaddr: u32, v: u16)
        requires
            old(self).wf(),
            BusModel::fits(old(self).model().phys(vaddr), 2),
        ensures
            final(self).wf(),
            final(self).model() == old(self).model().phys_written(old(self).model().phys(vaddr), 2, v as u64),
    {
        self.write(vaddr, 2, v as u64)
    }

    pub fn write32(&mut self, vaddr: u32, v: u32)
        requires
            old(self).wf(),
            BusModel::fits(old(self).model().phys(vaddr), 4),
        ensures
            final(self).wf(),
            final(self).model() == old(self).model().phys_written(old(self).model().phys(vaddr), 4, v as u64),
    {
        self.write(vaddr, 4, v as u64)
    }

    pub fn write64(&mut self, vaddr: u32, v: u64)
        requires
            old(self).wf(),
            BusModel::fits(old(self).model().phys(vaddr), 8),
        ensures
            final(self).wf(),
            final(self).model() == old(self).model().phys_written(old(self).model().phys(vaddr), 8, v as u64),
    {
        self.write(vaddr, 8, v as u64)
    }

    pub fn write128(&mut self, vaddr: u32, v: [u64; 2])
        requires
            old(self).wf(),
            vaddr + 8 <= u32::MAX,
            BusModel::fits(old(self).model().phys(vaddr), 8),
            BusModel::fits(old(self).model().phys((vaddr + 8) as u32), 8),
        ensures
            final(self).wf(),
            ({
                let m = old(self).model();
                let half = m.phys_written(m.phys(vaddr), 8, v[0]);
                final(self).model() == half.phys_written(m.phys((vaddr + 8) as u32), 8, v[1])
            }),
    {
        proof {
            let m = self.model();
            lemma_writes_keep_the_tlb(m, m.phys(vaddr), 8, v[0]);
        }
        self.write(vaddr, 8, v[0]);
        self.write(vaddr + 8, 8, v[1]);
    }

    /// Instruction fetch: RAM pages hit a one-entry page cache; anything
    /// else (BIOS, unmapped) takes the data-read path.
    pub fn fetch32(&mut self, vaddr: u32) -> (v: u32)
        requires
            old(self).wf(),
            BusModel::fits(old(self).model().phys(vaddr), 4),
        ensures
            final(self).wf(),
            v == old(self).model().phys_value(old(self).model().phys(vaddr), 4) % 0x1_0000_0000,
            final(self).model() == old(self).model().phys_read(old(self).model().phys(vaddr)),
    {
        proof {
            reveal(fetch_ok);
        }
        if let Some((page, base)) = self.fetch_page {
            if vaddr / 4096 == page {
                let v: u64 = read_le(&self.mem.ram, base + (vaddr % 4096) as usize, 4);
                return (v % 0x1_0000_0000) as u32;
            }
        }
        let addr = self.translate(vaddr);
        if (addr as usize) < RAM_SIZE {
            self.fetch_page = Some((vaddr / 4096, (addr - addr % 4096) as usize));
            proof {
                let t = self.tlb.entries@;
                assert forall|w: u32| w / 4096 == vaddr / 4096 implies #[trigger] translated(t, w) == addr - addr % 4096 + w
                    % 4096 by {
                    tlb::lemma_page_translation(t, vaddr, w);
                }
            }
            return (read_le(&self.mem.ram, addr as usize, 4) % 0x1_0000_0000) as u32;
        }
        self.read32(vaddr)
    }

    // --- debugger access (side-effect-free) ------------------------------------------

    fn peek_mmio(&self, addr: u32) -> (r: Option<u8>)
        requires
            self.wf(),
            0x1000_0000 <= addr <= 0x1000_FFFF,
        ensures
            r == self.model().peeked(addr),
    {
        let r: u32 = addr - addr % 4;
        let off: u32 = r % 0x40;
        let chan = match r - off {
            0x1000_8000 => Some(Channel::Vif0),
            0x1000_9000 => Some(Channel::Vif1),
            0x1000_A000 => Some(Channel::Gif),
            0x1000_D000 => Some(Channel::SprFrom),
            0x1000_D400 => Some(Channel::SprTo),
            0x1000_B400 => Some(Channel::IpuTo),
            0x1000_C000 => Some(Channel::Sif0),
            0x1000_C400 => Some(Channel::Sif1),
            _ => None,
        };
        let v: u32 = if r < 0x1000_2000 || (r >= 0x1000_F200 && r <= 0x1000_F26C) {
            (self.reply % 0x1_0000_0000) as u32
        } else if let Some(id) = chan {
            let c = self.channel(id);
            match off / 16 {
                0 => c.chcr,
                1 => c.madr,
                2 => c.qwc,
                _ => c.tadr,
            }
        } else {
            match r {
                0x1000_D080 => self.ee.spr_from.sadr,
                0x1000_D480 => self.ee.spr_to.sadr,
                0x1000_E010 => self.ee.d_stat | (self.ee.d_mask << 16),
                0x1000_F000 => self.ee.intc_stat,
                0x1000_F010 => self.ee.intc_mask,
                _ => {
                    return None;
                },
            }
        };
        Some(((v >> (addr % 4 * 8)) % 256) as u8)
    }

    /// Side-effect-free EE-side read for the debugger. MMIO is served only
    /// where the read is a plain load of state; anything that would advance
    /// a device returns `None`.
    pub fn peek8(&mut self, vaddr: u32) -> (r: Option<u8>)
        requires
            old(self).wf(),
        ensures
            final(self).wf(),
            final(self).model() == old(self).model(),
            r == old(self).model().peeked(old(self).model().phys(vaddr)),
    {
        let addr = self.translate(vaddr);
        match addr {
            0x0000_0000..=0x01FF_FFFF => Some(self.mem.ram[addr as usize]),
            0x7000_0000..=0x7000_3FFF => Some(self.mem.spad[(addr - 0x7000_0000) as usize]),
            0x1C00_0000..=0x1C1F_FFFF => Some(self.mem.iop_ram[(addr - 0x1C00_0000) as usize]),
            0x1FC0_0000..=0x1FFF_FFFF => Some(self.mem.bios[(addr - 0x1FC0_0000) as usize]),
            0x1200_0000..=0x1200_1FFF => {
                let v: u64 = self.gs.get_priv(addr - addr % 8);
                Some(((v >> ((addr % 8 * 8) as u64)) % 256) as u8)
            },
            0x1000_0000..=0x1000_FFFF => self.peek_mmio(addr),
            _ => None,
        }
    }

    /// Side-effect-free EE-side write for the debugger. ROM and MMIO are
    /// refused (`false`).
    pub fn poke8(&mut self, vaddr: u32, v: u8) -> (ok: bool)
        requires
            old(self).wf(),
        ensures
            final(self).wf(),
            ok == BusModel::pokes(old(self).model().phys(vaddr)),
            final(self).model() == old(self).model().poked(old(self).model().phys(vaddr), v),
    {
        let addr = self.translate(vaddr);
        match addr {
            0x0000_0000..=0x01FF_FFFF => {
                self.mem.ram[addr as usize] = v;
                self.mem.note_ram_write(addr as usize);
            },
            0x7000_0000..=0x7000_3FFF => {
                self.mem.spad[(addr - 0x7000_0000) as usize] = v;
            },
            0x1C00_0000..=0x1C1F_FFFF => {
                self.mem.iop_ram[(addr - 0x1C00_0000) as usize] = v;
            },
            _ => {
                return false;
            },
        }
        true
    }

    /// Side-effect-free IOP-side read for the debugger.
    pub fn iop_peek8(&self, vaddr: u32) -> (r: Option<u8>)
        requires
            self.wf(),
        ensures
            r == self.mem.model().iop_peeked(vaddr),
    {
        self.mem.iop_peek8(vaddr)
    }

    /// Side-effect-free IOP-side write for the debugger.
    pub fn iop_poke8(&mut self, vaddr: u32, v: u8) -> (ok: bool)
        requires
            old(self).wf(),
        ensures
            final(self).wf(),
            ok == memory::MemModel::iop_pokes(vaddr),
            final(self).model() == (BusModel { mem: old(self).mem.model().iop_poked(vaddr, v), ..old(self).model() }),
    {
        self.mem.iop_poke8(vaddr, v)
    }

    /// After a save state was loaded: nothing is recompiled yet.
    pub fn after_load(&mut self)
        requires
            old(self).wf(),
        ensures
            final(self).wf(),
            forall|i: int| 0 <= i < 8192 ==> !final(self).mem.code_pages@[i],
            final(self).model() == (BusModel {
                mem: memory::MemModel { code_pages: final(self).mem.code_pages@, dirty: Seq::empty(), ..old(self).mem.model() },
                flush: true,
                ..old(self).model()
            }),
    {
        proof {
            reveal(fetch_ok);
        }
        self.fetch_page = None;
        self.mem.code_pages = vec![false; 8192];
        self.mem.dirty_code_writes = Vec::new();
        self.jit_flush_needed = true;
    }

    // --- for the recompiler ------------------------------------------------------

    /// There is a mark for each RAM page.
    pub proof fn lemma_code_pages(&self)
        requires
            self.wf(),
        ensures
            self.model().mem.code_pages.len() == 8192,
    {
    }

    /// Whether a flush of recompiled code was asked for; the request is
    /// served.
    pub fn take_flush(&mut self) -> (asked: bool)
        requires
            old(self).wf(),
        ensures
            final(self).wf(),
            asked == old(self).model().flush,
            final(self).model() == (BusModel { flush: false, ..old(self).model() }),
    {
        let asked = self.jit_flush_needed;
        self.jit_flush_needed = false;
        asked
    }

    /// The queue of written code addresses, emptied.
    pub fn take_code_writes(&mut self) -> (dirty: Vec<u32>)
        requires
            old(self).wf(),
        ensures
            final(self).wf(),
            dirty@ == old(self).model().mem.dirty,
            final(self).model() == (BusModel {
                mem: memory::MemModel { dirty: Seq::empty(), ..old(self).mem.model() },
                ..old(self).model()
            }),
    {
        let mut dirty: Vec<u32> = Vec::new();
        std::mem::swap(&mut dirty, &mut self.mem.dirty_code_writes);
        assert(self.mem.dirty_code_writes@ =~= Seq::empty());
        dirty
    }

    /// Note that a RAM page holds recompiled code, or that it no longer does.
    pub fn mark_code_page(&mut self, page: usize, on: bool)
        requires
            old(self).wf(),
            page < 8192,
        ensures
            final(self).wf(),
            final(self).model() == (BusModel {
                mem: memory::MemModel {
                    code_pages: old(self).mem.model().code_pages.update(page as int, on),
                    ..old(self).mem.model()
                },
                ..old(self).model()
            }),
    {
        self.mem.code_pages[page] = on;
    }

    /// No page holds recompiled code any more, and nothing is flushed twice.
    pub fn forget_code(&mut self)
        requires
            old(self).wf(),
        ensures
            final(self).wf(),
            final(self).model() == (BusModel {
                mem: memory::MemModel {
                    code_pages: Seq::new(8192, |i: int| false),
                    dirty: Seq::empty(),
                    ..old(self).mem.model()
                },
                ..old(self).model()
            }),
    {
        self.mem.code_pages = vec![false; 8192];
        self.mem.dirty_code_writes = Vec::new();
        assert(self.mem.code_pages@ =~= Seq::new(8192, |i: int| false));
        assert(self.mem.dirty_code_writes@ =~= Seq::empty());
    }
}

/// The channel and its register at an MMIO address.
fn channel_at(r: u32) -> (c: Option<(Channel, u32)>)
    ensures
        match c {
            Some((id, off)) => channel_reg(r as int) == Some((id, off as int)),
            None => channel_reg(r as int) is None,
        },
{
    let off: u32 = r % 0x100;
    let plain = off == 0x00 || off == 0x10 || off == 0x20 || off == 0x30;
    let spr = plain || off == 0x80;
    match r - off {
        0x1000_8000 if plain => Some((Channel::Vif0, off)),
        0x1000_9000 if plain => Some((Channel::Vif1, off)),
        0x1000_A000 if plain => Some((Channel::Gif, off)),
        0x1000_B400 if plain => Some((Channel::IpuTo, off)),
        0x1000_C000 if plain && off != 0x30 => Some((Channel::Sif0, off)),
        0x1000_C400 if plain => Some((Channel::Sif1, off)),
        0x1000_D000 if spr => Some((Channel::SprFrom, off)),
        0x1000_D400 if spr => Some((Channel::SprTo, off)),
        _ => None,
    }
}

fn pair_of(a: u32, b: u32) -> (v: u64)
    ensures
        v == regs::pair(a, b),
{
    a as u64 + 0x1_0000_0000 * (b as u64)
}

proof fn lemma_gif_keeps_the_tlb(m: BusModel, out: Seq<Packet>)
    ensures
        m.gif_packets(out).tlb == m.tlb,
    decreases out.len(),
{
    if out.len() > 0 {
        lemma_gif_keeps_the_tlb(m, out.drop_last());
    }
}

proof fn lemma_sif_keeps_the_tlb(m: BusModel, e: Seq<SifEvent>)
    ensures
        m.sif_events(e).tlb == m.tlb,
    decreases e.len(),
{
    if e.len() > 0 {
        lemma_sif_keeps_the_tlb(m, e.drop_last());
    }
}

proof fn lemma_dma_keeps_the_tlb(m: BusModel, id: Channel)
    ensures
        m.started(id).tlb == m.tlb,
{
    reveal(BusModel::started);
    match id {
        Channel::Gif => {
            let s = dma::pumped(m.mem, m.ee.gif, true);
            lemma_gif_keeps_the_tlb(m.with_channel(id, s.ch).irq_if(s.done, 2), s.out);
        },
        Channel::Sif0 | Channel::Sif1 => {
            let l = m.link().pumped(sif::ROUND_LIMIT as int);
            lemma_sif_keeps_the_tlb(m.with_link(l), l.events);
        },
        _ => {},
    }
}

proof fn lemma_mmio_keeps_the_tlb(m: BusModel, addr: u32, n: usize, v: u64)
    ensures
        m.mmio_written(addr, n, v).tlb == m.tlb,
{
    reveal(BusModel::mmio_written);
    let r = addr - addr % 4;
    if let Some((id, off)) = channel_reg(r) {
        let w = (v % 0x1_0000_0000) as u32;
        lemma_dma_keeps_the_tlb(m.with_channel(id, regs::reg_set(m.channel(id), off, w)), id);
    }
}

/// No write through the bus changes the TLB.
pub proof fn lemma_writes_keep_the_tlb(m: BusModel, addr: u32, n: usize, v: u64)
    ensures
        m.phys_written(addr, n, v).tlb == m.tlb,
{
    lemma_mmio_keeps_the_tlb(m, addr, n, v);
}

} // verus!
