//! The bus's registers and what accesses to them do, over sequences.

use vstd::prelude::*;
use crate::bits::bits;
use crate::bytes::{get, put};
use crate::gif::{GsWrite, Tag};
use crate::gs::front::{Csr, FrontModel};
use super::cdvd::{CdvdModel, Drive, NCommand, CDVD_RESETTLE};
use super::dma::{pumped, spr_run, EeDmaChannel, Packet, Spr, EE_CHCR_STR, STEP_LIMIT};
use super::iop_timer::{IopTimer, LONGEST_WAIT};
use super::memory::{noted, quad_at, MemModel, Quad, RAM_SIZE};
use super::sif::{IopDmaChannel, Link, SifEvent, ROUND_LIMIT};
use super::sio2::SioModel;
use super::tlb::{translated, TlbEntry};

verus! {

/// How long the EE takes to recognise a raised INTC line, in EE cycles.
/// Long enough for a spin loop reading INTC_STAT to get a look in, short
/// beside anything the interrupt timing itself feeds.
pub const INTC_LATENCY: u64 = 32;

/// How long after a transfer its completion interrupt comes: data moves
/// instantly but completion must not fire inside the very instruction that
/// started the transfer.
pub const DMA_IRQ_DELAY: u64 = 1024;

/// Number of RDRAM devices reported by the MCH init handshake.
pub const RDRAM_DEVICES: u32 = 2;

/// VIF_STAT.FDR: the VIF FIFO's transfer direction.
pub const VIF_STAT_FDR: u64 = 0x80_0000;

/// Video timing.
#[derive(Clone, Copy, PartialEq, Eq, Structural, Debug)]
pub enum Region {
    Ntsc,
    Pal,
}

impl Region {
    /// IOP clocks (36.864 MHz) per scanline, the rate of the hblank-clocked
    /// counters.
    pub open spec fn hblank(self) -> u64 {
        match self {
            Region::Ntsc => 2343,
            Region::Pal => 2359,
        }
    }

    pub fn iop_hblank_div(self) -> (n: u64)
        ensures
            n == self.hblank(),
    {
        match self {
            Region::Ntsc => 2343,
            Region::Pal => 2359,
        }
    }
}

/// What a device outside the bus has to hear.
#[allow(inconsistent_fields)]
#[derive(Clone, Copy, PartialEq, Eq, Structural)]
pub enum Event {
    /// EE timer register write.
    Timer { addr: u32, v: u32 },
    /// The video timing changes: EE timers freeze at the count they have
    /// under the timing that ends.
    Rebase(Region),
    /// A word for a VIF (0 or 1).
    Vif { unit: u8, word: u32 },
    /// IPU register write; `wide` for 64 bits.
    Ipu { addr: u32, v: u64, wide: bool },
    /// A quadword for the IPU's input FIFO.
    IpuIn(Quad),
    /// SIF register write from the EE or the IOP.
    Sif { iop: bool, addr: u32, v: u32 },
    /// VU memory write.
    Vu { addr: u32, size: usize, v: u64 },
    /// SPU2 register write.
    Spu { addr: u32, size: usize, v: u32 },
    /// A kicked SPU2 DMA.
    SpuDma { core: u8, to_spu: bool, start: u32, bytes: u64 },
    /// A CDVD N command for the host.
    Cdvd(NCommand),
}

/// The EE side's plain registers.
#[derive(Clone, Copy, PartialEq, Eq, Structural)]
pub struct EeRegs {
    /// Current EE cycle count.
    pub now: u64,
    /// Earliest cycle at which periodic work is due; any write that can move
    /// an event resets it to 0.
    pub timers_due: u64,
    pub intc_stat: u32,
    pub intc_mask: u32,
    /// Cycle from which the EE may recognise the INTC line, or `u64::MAX`
    /// while nothing is pending.
    pub intc_ready_at: u64,
    pub d_stat: u32,
    pub d_mask: u32,
    /// RDRAM devices that have answered the init handshake.
    pub rdram_sdevid: u32,
    pub region: Region,
    pub vif0: EeDmaChannel,
    pub vif1: EeDmaChannel,
    pub gif: EeDmaChannel,
    pub ipu_to: EeDmaChannel,
    /// Scratchpad channels: 8 copies out of the SPR, 9 into it.
    pub spr_from: EeDmaChannel,
    pub spr_to: EeDmaChannel,
}

/// The EE DMAC channels.
#[derive(Clone, Copy, PartialEq, Eq, Structural)]
pub enum Channel {
    Vif0,
    Vif1,
    Gif,
    IpuTo,
    Sif0,
    Sif1,
    SprFrom,
    SprTo,
}

impl EeRegs {
    pub open spec fn wf(self) -> bool {
        &&& self.now + LONGEST_WAIT <= u64::MAX
        &&& self.rdram_sdevid <= RDRAM_DEVICES
        &&& self.vif0.wf() && self.vif1.wf() && self.gif.wf()
        &&& self.ipu_to.wf() && self.spr_from.wf() && self.spr_to.wf()
    }

    /// The INTC line after a change of its status or mask. The EE does not
    /// see an interrupt in the cycle its source raises it: the line has to
    /// reach the core first.
    pub open spec fn settled(self) -> EeRegs {
        EeRegs {
            intc_ready_at: if self.intc_stat & self.intc_mask == 0 {
                u64::MAX
            } else if self.intc_ready_at == u64::MAX {
                (self.now + INTC_LATENCY) as u64
            } else {
                self.intc_ready_at
            },
            ..self
        }
    }

    /// INTC source `mask` raised.
    pub open spec fn raised(self, mask: u32) -> EeRegs {
        EeRegs { intc_stat: self.intc_stat | mask, ..self }.settled()
    }
}

/// The IOP side's plain registers.
#[derive(Clone, Copy, PartialEq, Eq, Structural)]
pub struct IopRegs {
    /// Interrupt controller: I_STAT / I_MASK / I_CTRL.
    pub i_stat: u32,
    pub i_mask: u32,
    pub i_ctrl: u32,
    /// DMA interrupt control.
    pub dicr: u32,
    pub dicr2: u32,
    pub sio2in: IopDmaChannel,
    pub sio2out: IopDmaChannel,
    pub cdvd: IopDmaChannel,
    /// SPU2 channels: ch4 (core 0) and ch7 (core 1).
    pub spu0: IopDmaChannel,
    pub spu1: IopDmaChannel,
    /// DMA ch12 armed before the SIO2 transfer produced its response; the
    /// copy runs when the transfer executes (hardware waits on DRQ).
    pub sio2out_deferred: bool,
    /// DMA ch3 armed before the CDVD read staged its sectors.
    pub cdvd_deferred: bool,
    /// EE cycle when the in-flight CDVD N command completes.
    pub cdvd_done_at: Option<u64>,
    /// sceSifIopReset commands seen, for the drive re-settle policy.
    pub resets: u32,
}

impl IopRegs {
    /// IOP DMA channel `ch` completed: channels 0-6 report through DICR,
    /// 7-13 through DICR2 (enable bits 16+, flag bits 24+).
    pub open spec fn dma_done(self, ch: u32) -> IopRegs {
        let (low, bit) = (ch < 7, if ch < 7 {
            ch
        } else {
            (ch - 7) as u32
        });
        let reg = if low {
            self.dicr
        } else {
            self.dicr2
        };
        let flagged = reg | (1u32 << ((24 + bit) as u32));
        let enabled = reg & (1u32 << ((16 + bit) as u32)) != 0;
        IopRegs {
            dicr: if low {
                flagged
            } else {
                self.dicr
            },
            dicr2: if low {
                self.dicr2
            } else {
                flagged
            },
            i_stat: if enabled {
                self.i_stat | 8
            } else {
                self.i_stat
            },
            ..self
        }
    }

    pub fn iop_dma_irq(&mut self, ch: u32)
        requires
            ch < 14,
        ensures
            *final(self) == old(self).dma_done(ch),
    {
        if ch < 7 {
            let enabled = self.dicr & (1u32 << (16 + ch)) != 0;
            self.dicr = self.dicr | (1u32 << (24 + ch));
            if enabled {
                self.i_stat = self.i_stat | 8;
            }
        } else {
            let bit: u32 = ch - 7;
            let enabled = self.dicr2 & (1u32 << (16 + bit)) != 0;
            self.dicr2 = self.dicr2 | (1u32 << (24 + bit));
            if enabled {
                self.i_stat = self.i_stat | 8;
            }
        }
    }
}

/// The bus over sequences.
pub struct BusModel {
    pub mem: MemModel,
    /// Shadow storage for EE MMIO registers that nothing else keeps: reads
    /// return the last written value.
    pub mmio: Seq<u8>,
    pub ee: EeRegs,
    pub iop: IopRegs,
    pub gif: Tag,
    pub front: FrontModel,
    pub fifo0: Seq<u32>,
    pub fifo1: Seq<u32>,
    pub sif0: EeDmaChannel,
    pub sif1: EeDmaChannel,
    pub iop_sif0: IopDmaChannel,
    pub iop_sif1: IopDmaChannel,
    pub cdvd: CdvdModel,
    pub sio: SioModel,
    /// IOP root counters.
    pub timers: Seq<IopTimer>,
    /// Shadow storage for IOP MMIO, same idea as the EE shadow.
    pub iop_mmio: Seq<u8>,
    pub tlb: Seq<TlbEntry>,
    /// What the device outside the bus that the next read addresses answers.
    pub reply: u64,
    /// A TLB rewrite invalidated every recompiled block.
    pub flush: bool,
    /// Deferred EE DMAC completion interrupts: (D_STAT bit, due cycle).
    pub irqs: Seq<(u32, u64)>,
    pub events: Seq<Event>,
    /// Kernel TTY output captured from the EE SIO TXFIFO.
    pub tty: Seq<char>,
}

impl EeRegs {
    /// After power-on: nothing pending, every channel idle.
    pub open spec fn reset(region: Region) -> EeRegs {
        EeRegs {
            now: 0,
            timers_due: 0,
            intc_stat: 0,
            intc_mask: 0,
            intc_ready_at: u64::MAX,
            d_stat: 0,
            d_mask: 0,
            rdram_sdevid: 0,
            region,
            vif0: EeDmaChannel::idle(),
            vif1: EeDmaChannel::idle(),
            gif: EeDmaChannel::idle(),
            ipu_to: EeDmaChannel::idle(),
            spr_from: EeDmaChannel::idle(),
            spr_to: EeDmaChannel::idle(),
        }
    }
}

impl IopRegs {
    /// After power-on.
    pub open spec fn reset() -> IopRegs {
        IopRegs {
            i_stat: 0,
            i_mask: 0,
            i_ctrl: 0,
            dicr: 0,
            dicr2: 0,
            sio2in: IopDmaChannel::idle(),
            sio2out: IopDmaChannel::idle(),
            cdvd: IopDmaChannel::idle(),
            spu0: IopDmaChannel::idle(),
            spu1: IopDmaChannel::idle(),
            sio2out_deferred: false,
            cdvd_deferred: false,
            cdvd_done_at: None,
            resets: 0,
        }
    }
}

impl BusModel {
    /// A machine after power-on: zeroed memories beside the BIOS, every
    /// channel idle, an empty drive, a blank card.
    pub open spec fn reset(bios: Seq<u8>, gs_threaded: bool, region: Region) -> BusModel {
        BusModel {
            mem: MemModel::blank(bios),
            // DMAC ENABLER resets to 0x1201; the BIOS uses it as a
            // board-revision key into its RDRAM configuration table.
            mmio: put(Seq::new(0x1_0000, |i: int| 0u8), 0xF590, 4, 0x1201),
            ee: EeRegs::reset(region),
            iop: IopRegs::reset(),
            gif: Tag::none(),
            front: FrontModel::reset(!gs_threaded),
            fifo0: Seq::empty(),
            fifo1: Seq::empty(),
            sif0: EeDmaChannel::idle(),
            sif1: EeDmaChannel::idle(),
            iop_sif0: IopDmaChannel::idle(),
            iop_sif1: IopDmaChannel::idle(),
            cdvd: CdvdModel::fresh(),
            sio: SioModel::reset(),
            timers: Seq::new(6, |i: int| IopTimer { base: 0, base_cycle: 0, mode: 0, target: 0, last_check: 0 }),
            iop_mmio: Seq::new(0x1_0000, |i: int| 0u8),
            tlb: Seq::new(48, |i: int| TlbEntry { mask: 0, hi: 0, lo0: 0, lo1: 0 }),
            reply: 0,
            flush: false,
            irqs: Seq::empty(),
            events: Seq::empty(),
            tty: Seq::empty(),
        }
    }
}

/// A channel and its register at an MMIO address: CHCR, MADR, QWC, TADR and
/// SADR at 0x00, 0x10, 0x20, 0x30 and 0x80.
pub open spec fn channel_reg(r: int) -> Option<(Channel, int)> {
    let off = r % 0x100;
    let base = r - off;
    let plain = off == 0x00 || off == 0x10 || off == 0x20 || off == 0x30;
    if base == 0x1000_8000 && plain {
        Some((Channel::Vif0, off))
    } else if base == 0x1000_9000 && plain {
        Some((Channel::Vif1, off))
    } else if base == 0x1000_A000 && plain {
        Some((Channel::Gif, off))
    } else if base == 0x1000_B400 && plain {
        Some((Channel::IpuTo, off))
    } else if base == 0x1000_C000 && plain && off != 0x30 {
        Some((Channel::Sif0, off))
    } else if base == 0x1000_C400 && plain {
        Some((Channel::Sif1, off))
    } else if base == 0x1000_D000 && (plain || off == 0x80) {
        Some((Channel::SprFrom, off))
    } else if base == 0x1000_D400 && (plain || off == 0x80) {
        Some((Channel::SprTo, off))
    } else {
        None
    }
}

/// A channel with one of its registers written.
pub open spec fn reg_set(c: EeDmaChannel, off: int, v: u32) -> EeDmaChannel {
    if off == 0x00 {
        EeDmaChannel { chcr: v, ..c }
    } else if off == 0x10 {
        EeDmaChannel { madr: v, ..c }
    } else if off == 0x20 {
        EeDmaChannel { qwc: (v % 0x1_0000) as u32, ..c }
    } else if off == 0x30 {
        EeDmaChannel { tadr: v, ..c }
    } else {
        EeDmaChannel { sadr: (v % 0x4000) as u32, ..c }
    }
}

/// One of a channel's registers.
pub open spec fn reg_get(c: EeDmaChannel, off: int) -> u32 {
    if off == 0x00 {
        c.chcr
    } else if off == 0x10 {
        c.madr
    } else if off == 0x20 {
        c.qwc
    } else if off == 0x30 {
        c.tadr
    } else {
        c.sadr
    }
}

/// The words that a VIF gets of what its channel delivers.
pub open spec fn vif_events(unit: u8, p: Packet) -> Seq<Event> {
    match p {
        Packet::Data(q) => seq![
            Event::Vif { unit, word: q.w0 },
            Event::Vif { unit, word: q.w1 },
            Event::Vif { unit, word: q.w2 },
            Event::Vif { unit, word: q.w3 },
        ],
        Packet::Tag(a, b) => seq![Event::Vif { unit, word: a }, Event::Vif { unit, word: b }],
    }
}

pub open spec fn vif_stream(unit: u8, out: Seq<Packet>) -> Seq<Event>
    decreases out.len(),
{
    if out.len() == 0 {
        Seq::empty()
    } else {
        vif_stream(unit, out.drop_last()) + vif_events(unit, out.last())
    }
}

/// The quadwords that the IPU gets of what its channel delivers.
pub open spec fn ipu_stream(out: Seq<Packet>) -> Seq<Event>
    decreases out.len(),
{
    if out.len() == 0 {
        Seq::empty()
    } else {
        match out.last() {
            Packet::Data(q) => ipu_stream(out.drop_last()).push(Event::IpuIn(q)),
            Packet::Tag(a, b) => ipu_stream(out.drop_last()),
        }
    }
}

/// Two words, low first.
pub open spec fn pair(a: u32, b: u32) -> u64 {
    (a + 0x1_0000_0000 * b) as u64
}

/// Words `0..n` of `v`, low first, for a VIF.
pub open spec fn vif_words(unit: u8, n: usize, v: u64) -> Seq<Event> {
    if n == 8 {
        seq![
            Event::Vif { unit, word: (v % 0x1_0000_0000) as u32 },
            Event::Vif { unit, word: (v / 0x1_0000_0000) as u32 },
        ]
    } else if n == 4 {
        seq![Event::Vif { unit, word: (v % 0x1_0000_0000) as u32 }]
    } else {
        seq![]
    }
}

/// The GS writes of a quadword handed to the front end, in order.
pub open spec fn front_all(f: FrontModel, w: Seq<GsWrite>) -> FrontModel
    decreases w.len(),
{
    if w.len() == 0 {
        f
    } else {
        front_all(f, w.drop_last()).reg_written(w.last().reg, w.last().v)
    }
}

impl BusModel {
    /// An EE DMAC completion interrupt, a little into the future.
    pub open spec fn dma_irq(self, ch: u32) -> BusModel {
        BusModel {
            irqs: self.irqs.push((1u32 << ch, (self.ee.now + DMA_IRQ_DELAY) as u64)),
            ee: EeRegs { timers_due: 0, ..self.ee },
            ..self
        }
    }

    pub open spec fn irq_if(self, done: bool, ch: u32) -> BusModel {
        if done {
            self.dma_irq(ch)
        } else {
            self
        }
    }

    /// A pending GS interrupt edge folded into INTC bit 0.
    pub open spec fn gs_synced(self) -> BusModel {
        if self.front.irq.intc_pending {
            BusModel {
                front: FrontModel { irq: Csr { intc_pending: false, ..self.front.irq }, ..self.front },
                ee: self.ee.raised(1),
                ..self
            }
        } else {
            self
        }
    }

    /// One quadword for the GIF.
    pub open spec fn gif_fed(self, lo: u64, hi: u64) -> BusModel {
        let (tag, w) = self.gif.fed(lo, hi);
        BusModel { gif: tag, front: front_all(self.front, w), ..self }
    }

    pub open spec fn gif_packet(self, p: Packet) -> BusModel {
        match p {
            Packet::Data(q) => self.gif_fed(pair(q.w0, q.w1), pair(q.w2, q.w3)),
            // TTE on the GIF channel sends the tag's upper 64 bits.
            Packet::Tag(a, b) => self.gif_fed(pair(a, b), 0),
        }
    }

    pub open spec fn gif_packets(self, out: Seq<Packet>) -> BusModel
        decreases out.len(),
    {
        if out.len() == 0 {
            self
        } else {
            self.gif_packets(out.drop_last()).gif_packet(out.last())
        }
    }

    pub open spec fn link(self) -> Link {
        Link {
            mem: self.mem,
            fifo0: self.fifo0,
            fifo1: self.fifo1,
            ee0: self.sif0,
            ee1: self.sif1,
            iop0: self.iop_sif0,
            iop1: self.iop_sif1,
            events: Seq::empty(),
        }
    }

    pub open spec fn with_link(self, l: Link) -> BusModel {
        BusModel {
            mem: l.mem,
            fifo0: l.fifo0,
            fifo1: l.fifo1,
            sif0: l.ee0,
            sif1: l.ee1,
            iop_sif0: l.iop0,
            iop_sif1: l.iop1,
            ..self
        }
    }

    /// What a SIF transfer made known. From the third IOP reboot on the
    /// rebooted cdvdman re-checks the drive and it settles a while later;
    /// the two earlier reboots must stay fast.
    pub open spec fn sif_event(self, e: SifEvent) -> BusModel {
        match e {
            SifEvent::Ee0 => self.dma_irq(5),
            SifEvent::Ee1 => self.dma_irq(6),
            SifEvent::Iop0 => BusModel { iop: self.iop.dma_done(9), ..self },
            SifEvent::Iop1 => BusModel { iop: self.iop.dma_done(10), ..self },
            SifEvent::Reset => {
                let n = self.iop.resets.wrapping_add(1);
                BusModel {
                    iop: IopRegs { resets: n, ..self.iop },
                    cdvd: if n >= 3 {
                        CdvdModel {
                            drive: Drive { ready_at: (self.ee.now + CDVD_RESETTLE) as u64, ..self.cdvd.drive },
                            ..self.cdvd
                        }
                    } else {
                        self.cdvd
                    },
                    ..self
                }
            },
        }
    }

    pub open spec fn sif_events(self, e: Seq<SifEvent>) -> BusModel
        decreases e.len(),
    {
        if e.len() == 0 {
            self
        } else {
            self.sif_events(e.drop_last()).sif_event(e.last())
        }
    }

    /// As much SIF traffic moved as the armed channels allow.
    pub open spec fn sif_pumped(self) -> BusModel {
        let l = self.link().pumped(ROUND_LIMIT as int);
        self.with_link(l).sif_events(l.events)
    }

    pub open spec fn channel(self, id: Channel) -> EeDmaChannel {
        match id {
            Channel::Vif0 => self.ee.vif0,
            Channel::Vif1 => self.ee.vif1,
            Channel::Gif => self.ee.gif,
            Channel::IpuTo => self.ee.ipu_to,
            Channel::Sif0 => self.sif0,
            Channel::Sif1 => self.sif1,
            Channel::SprFrom => self.ee.spr_from,
            Channel::SprTo => self.ee.spr_to,
        }
    }

    pub open spec fn with_channel(self, id: Channel, c: EeDmaChannel) -> BusModel {
        match id {
            Channel::Vif0 => BusModel { ee: EeRegs { vif0: c, ..self.ee }, ..self },
            Channel::Vif1 => BusModel { ee: EeRegs { vif1: c, ..self.ee }, ..self },
            Channel::Gif => BusModel { ee: EeRegs { gif: c, ..self.ee }, ..self },
            Channel::IpuTo => BusModel { ee: EeRegs { ipu_to: c, ..self.ee }, ..self },
            Channel::Sif0 => BusModel { sif0: c, ..self },
            Channel::Sif1 => BusModel { sif1: c, ..self },
            Channel::SprFrom => BusModel { ee: EeRegs { spr_from: c, ..self.ee }, ..self },
            Channel::SprTo => BusModel { ee: EeRegs { spr_to: c, ..self.ee }, ..self },
        }
    }

    /// A started VIF channel runs to completion.
    pub open spec fn vif_started(self, id: Channel, unit: u8) -> BusModel {
        let s = pumped(self.mem, self.channel(id), true);
        let m = self.with_channel(id, s.ch);
        BusModel { events: m.events + vif_stream(unit, s.out), ..m }.irq_if(s.done, unit as u32)
    }

    pub open spec fn gif_started(self) -> BusModel {
        let s = pumped(self.mem, self.ee.gif, true);
        self.with_channel(Channel::Gif, s.ch).irq_if(s.done, 2).gif_packets(s.out).gs_synced()
    }

    pub open spec fn ipu_started(self) -> BusModel {
        let s = pumped(self.mem, self.ee.ipu_to, false);
        let m = self.with_channel(Channel::IpuTo, s.ch);
        BusModel { events: m.events + ipu_stream(s.out), ..m }.irq_if(s.done, 4)
    }

    /// A started scratchpad channel: 9 (`to`) or 8.
    pub open spec fn spr_started(self, to: bool) -> BusModel {
        let id = if to {
            Channel::SprTo
        } else {
            Channel::SprFrom
        };
        let s = spr_run(Spr { ch: self.channel(id), mem: self.mem, done: false }, to, STEP_LIMIT as int);
        let m = self.with_channel(id, s.ch);
        BusModel { mem: s.mem, ..m }.irq_if(
            s.done,
            if to {
                9
            } else {
                8
            },
        )
    }

    /// A started channel runs to completion.
    #[verifier::opaque]
    pub open spec fn started(self, id: Channel) -> BusModel {
        match id {
            Channel::Vif0 => self.vif_started(id, 0),
            Channel::Vif1 => self.vif_started(id, 1),
            Channel::Gif => self.gif_started(),
            Channel::IpuTo => self.ipu_started(),
            Channel::Sif0 | Channel::Sif1 => self.sif_pumped(),
            Channel::SprFrom => self.spr_started(false),
            Channel::SprTo => self.spr_started(true),
        }
    }

    /// A channel register written; a set start bit runs the transfer inside
    /// the write.
    pub open spec fn channel_written(self, id: Channel, off: int, v: u32) -> BusModel {
        let m = self.with_channel(id, reg_set(self.channel(id), off, v));
        if off == 0 && v & EE_CHCR_STR != 0 {
            m.started(id)
        } else {
            m
        }
    }

    /// The MMIO shadow written.
    pub open spec fn shadow_put(self, addr: u32, n: usize, v: u64) -> BusModel {
        BusModel { mmio: put(self.mmio, addr as int % 0x1_0000, n as int, v as nat), ..self }
    }

    /// A channel with nothing behind it: the transfer completes so the
    /// software does not wait on it forever.
    pub open spec fn stub_written(self, addr: u32, ch: u32, n: usize, v: u64) -> BusModel {
        if v & 0x100 == 0 {
            self.shadow_put(addr, n, v)
        } else {
            self.shadow_put(addr, n, v & !0x100u64).dma_irq(ch)
        }
    }

    /// The IPU's input FIFO by programmed I/O: assembled in the shadow and
    /// handed over a quadword at a time.
    pub open spec fn ipu_fifo_written(self, addr: u32, n: usize, v: u64) -> BusModel {
        let m = self.shadow_put(addr, n, v);
        if addr % 16 + n >= 16 {
            BusModel {
                events: m.events.push(Event::IpuIn(quad_at(m.mmio, addr as int % 0x1_0000 / 16 * 16))),
                ..m
            }
        } else {
            m
        }
    }

    /// The GIF FIFO: PATH3 fed by programmed writes instead of channel 2.
    pub open spec fn gif_fifo_written(self, addr: u32, n: usize, v: u64) -> BusModel {
        let m = self.shadow_put(addr, n, v);
        let base = addr as int % 0x1_0000 / 16 * 16;
        if addr % 16 + n >= 16 {
            m.gif_fed(get(m.mmio, base, 8) as u64, get(m.mmio, base + 8, 8) as u64)
        } else {
            m
        }
    }

    /// The interrupt registers. D_STAT's low half is write-1-to-clear and
    /// its high half toggles the mask; INTC_STAT is write-1-to-clear and
    /// INTC_MASK write-1-to-toggle.
    pub open spec fn interrupts_written(self, r: int, w: u32) -> BusModel {
        let e = self.ee;
        if r == 0x1000_E010 {
            BusModel {
                ee: EeRegs {
                    d_stat: e.d_stat & !((w % 0x1_0000) as u32),
                    d_mask: e.d_mask ^ ((w / 0x1_0000) as u32),
                    ..e
                },
                ..self
            }
        } else if r == 0x1000_F000 {
            BusModel { ee: EeRegs { intc_stat: e.intc_stat & !w, ..e }.settled(), ..self }
        } else {
            BusModel { ee: EeRegs { intc_mask: e.intc_mask ^ ((w % 0x1_0000) as u32), ..e }.settled(), ..self }
        }
    }

    /// The RDRAM controller: busy bits self-clear, and INIT in MCH_RICM
    /// restarts device counting.
    pub open spec fn mch_written(self, r: int, v: u64) -> BusModel {
        let stored = (v % 0x8000_0000) as nat;
        let restarts = bits(v, 16, 0xFFF) == 0x21 && bits(v, 6, 0xF) == 1 && get(self.mmio, 0xF440, 4) / 128 % 2 == 0;
        if r == 0x1000_F410 {
            BusModel { mmio: put(self.mmio, 0xF410, 4, stored), ..self }
        } else {
            BusModel {
                mmio: put(self.mmio, 0xF430, 4, stored),
                ee: EeRegs {
                    rdram_sdevid: if restarts {
                        0
                    } else {
                        self.ee.rdram_sdevid
                    },
                    ..self.ee
                },
                ..self
            }
        }
    }

    /// A register write at MMIO address `addr`.
    #[verifier::opaque]
    pub open spec fn mmio_written(self, addr: u32, n: usize, v: u64) -> BusModel {
        let r = addr - addr % 4;
        let w = (v % 0x1_0000_0000) as u32;
        if r < 0x1000_2000 {
            BusModel {
                events: self.events.push(Event::Timer { addr, v: w }),
                ee: EeRegs { timers_due: 0, ..self.ee },
                ..self
            }
        } else if r == 0x1000_F180 {
            // EE SIO TXFIFO: the kernel's debug output channel. Pure
            // observation.
            BusModel { tty: self.tty.push(((v % 256) as u8) as char), ..self }
        } else if channel_reg(r) is Some {
            self.channel_written(channel_reg(r)->Some_0.0, channel_reg(r)->Some_0.1, w)
        } else if 0x1000_4000 <= r <= 0x1000_4FF0 {
            BusModel { events: self.events + vif_words(0, n, v), ..self }
        } else if 0x1000_5000 <= r <= 0x1000_5FF0 {
            BusModel { events: self.events + vif_words(1, n, v), ..self }
        } else if r == 0x1000_B000 {
            self.stub_written(addr, 3, n, v)
        } else if r == 0x1000_C800 {
            self.stub_written(addr, 7, n, v)
        } else if 0x1000_2000 <= r <= 0x1000_203C {
            BusModel { events: self.events.push(Event::Ipu { addr, v, wide: n == 8 }), ..self }
        } else if 0x1000_7010 <= r <= 0x1000_701C {
            self.ipu_fifo_written(addr, n, v)
        } else if 0x1000_6000 <= r <= 0x1000_6FF0 {
            self.gif_fifo_written(addr, n, v)
        } else if r == 0x1000_E010 || r == 0x1000_F000 || r == 0x1000_F010 {
            self.interrupts_written(r, w)
        } else if 0x1000_F200 <= r <= 0x1000_F26C {
            BusModel { events: self.events.push(Event::Sif { iop: false, addr, v: w }), ..self }
        } else if r == 0x1000_F410 || r == 0x1000_F430 {
            self.mch_written(r, v)
        } else {
            self.shadow_put(addr, n, v)
        }
    }

    /// Registers that only a device outside the bus can answer: the EE
    /// timers, the IPU and the SIF mailboxes.
    pub open spec fn mmio_device(addr: u32) -> bool {
        let r = addr - addr % 4;
        r < 0x1000_2000 || (0x1000_2000 <= r <= 0x1000_203C) || (0x1000_F200 <= r <= 0x1000_F26C)
    }

    /// What MCH_DRD answers: the RDRAM init handshake.
    pub open spec fn rdram_answer(self) -> u64 {
        let ricm = get(self.mmio, 0xF430, 4) as u64;
        let sa = bits(ricm, 16, 0xFFF);
        if bits(ricm, 6, 0xF) != 0 {
            0
        } else if sa == 0x21 {
            // INIT: each device answers once.
            if self.ee.rdram_sdevid < RDRAM_DEVICES {
                0x1F
            } else {
                0
            }
        } else if sa == 0x23 {
            0x0D0D
        } else if sa == 0x24 {
            0x0090
        } else if sa == 0x40 {
            bits(ricm, 0, 0x1F)
        } else {
            0
        }
    }

    /// What an MMIO read gives.
    pub open spec fn mmio_value(self, addr: u32, n: usize) -> u64 {
        let r = addr - addr % 4;
        if BusModel::mmio_device(addr) {
            self.reply
        } else if r == 0x1000_F130 || r == 0x1000_F430 || r == 0x1000_3020 || (0x1000_7000 <= r <= 0x1000_700C) {
            // No serial interrupts; RICM never busy; the GIF idle; the IPU
            // output FIFO empty.
            0
        } else if r == 0x1000_F440 {
            self.rdram_answer()
        } else if r == 0x1000_3800 || r == 0x1000_3C00 {
            // VIF_STAT: never caught mid-code; FDR is kept as written.
            get(self.mmio, r % 0x1_0000, 4) as u64 & VIF_STAT_FDR
        } else if channel_reg(r) is Some {
            reg_get(self.channel(channel_reg(r)->Some_0.0), channel_reg(r)->Some_0.1) as u64
        } else if r == 0x1000_E010 {
            (self.ee.d_stat | (self.ee.d_mask << 16)) as u64
        } else if r == 0x1000_F000 {
            self.ee.intc_stat as u64
        } else if r == 0x1000_F010 {
            self.ee.intc_mask as u64
        } else if r == 0x1000_F520 {
            // DMAC ENABLER reads back the value written to ENABLEW.
            get(self.mmio, 0xF590, 4) as u64
        } else {
            get(self.mmio, addr as int % 0x1_0000, n as int) as u64
        }
    }

    /// An MMIO read's effect: an RDRAM device has answered INIT.
    pub open spec fn mmio_read(self, addr: u32) -> BusModel {
        let ricm = get(self.mmio, 0xF430, 4) as u64;
        if addr - addr % 4 == 0x1000_F440 && bits(ricm, 6, 0xF) == 0 && bits(ricm, 16, 0xFFF) == 0x21
            && self.ee.rdram_sdevid < RDRAM_DEVICES {
            BusModel { ee: EeRegs { rdram_sdevid: (self.ee.rdram_sdevid + 1) as u32, ..self.ee }, ..self }
        } else {
            self
        }
    }

    // --- the GS's privileged registers ----------------------------------------

    pub open spec fn gs_value(self, addr: u32, n: usize) -> u64 {
        let v = self.front.priv_value((addr - addr % 8) as u32);
        if n == 8 {
            v
        } else if addr / 4 % 2 == 1 {
            v / 0x1_0000_0000
        } else {
            v % 0x1_0000_0000
        }
    }

    /// What a write makes of the 64-bit register: narrower accesses merge
    /// into their half.
    pub open spec fn gs_merged(self, addr: u32, n: usize, v: u64) -> u64 {
        let cur = self.front.priv_value((addr - addr % 8) as u32);
        let w = v % 0x1_0000_0000;
        if n == 8 {
            v
        } else if addr / 4 % 2 == 1 {
            (cur % 0x1_0000_0000 + 0x1_0000_0000 * w) as u64
        } else {
            (cur - cur % 0x1_0000_0000 + w) as u64
        }
    }

    /// Follow the CRTC mode software programmed: SMODE1's CMOD field selects
    /// the composite encoder. Other values are the progressive and DTV
    /// modes, whose refresh is not encoded here, so they leave the rate as
    /// it is.
    pub open spec fn region_for(self, smode1: u64) -> Region {
        let cmod = bits(smode1, 13, 3);
        if cmod == 2 {
            Region::Ntsc
        } else if cmod == 3 {
            Region::Pal
        } else {
            self.ee.region
        }
    }

    /// The video timing changed: each counter is frozen at the count it has
    /// first, since a new hblank divisor would reinterpret the whole elapsed
    /// span.
    pub open spec fn retimed(self, region: Region) -> BusModel {
        if region == self.ee.region {
            self
        } else {
            BusModel {
                events: self.events.push(Event::Rebase(self.ee.region)),
                timers: Seq::new(
                    self.timers.len(),
                    |t: int|
                        IopTimer {
                            base: self.timers[t].value(t, self.ee.now, self.ee.region.hblank()) as u32,
                            base_cycle: self.ee.now,
                            ..self.timers[t]
                        },
                ),
                ee: EeRegs { region, ..self.ee },
                ..self
            }
        }
    }

    pub open spec fn gs_written(self, addr: u32, n: usize, v: u64) -> BusModel {
        let w = self.gs_merged(addr, n, v);
        let m = BusModel { front: self.front.priv_written((addr - addr % 8) as u32, w), ..self };
        let t = if addr & 0x1FF0 == 0x10 {
            m.retimed(m.region_for(w))
        } else {
            m
        };
        t.gs_synced()
    }

    // --- the EE's address map ------------------------------------------------------

    /// An access that stays inside the memory it starts in.
    pub open spec fn fits(addr: u32, n: usize) -> bool {
        if addr < RAM_SIZE {
            addr + n <= RAM_SIZE
        } else if 0x7000_0000 <= addr <= 0x7000_3FFF {
            addr + n <= 0x7000_4000
        } else if 0x1000_0000 <= addr <= 0x1000_FFFF {
            addr + n <= 0x1001_0000
        } else if 0x1C00_0000 <= addr <= 0x1C1F_FFFF {
            addr + n <= 0x1C20_0000
        } else if 0x1FC0_0000 <= addr <= 0x1FFF_FFFF {
            addr + n <= 0x2000_0000
        } else {
            true
        }
    }

    /// Physical addresses that only a device outside the bus can answer: the
    /// VU memories and some MMIO registers.
    pub open spec fn device(addr: u32) -> bool {
        (0x1100_0000 <= addr <= 0x1100_FFFF) || (0x1000_0000 <= addr <= 0x1000_FFFF && BusModel::mmio_device(addr))
    }

    /// What a read of `n` bytes at a physical address gives.
    pub open spec fn phys_value(self, addr: u32, n: usize) -> u64 {
        if addr < RAM_SIZE {
            get(self.mem.ram, addr as int, n as int) as u64
        } else if 0x7000_0000 <= addr <= 0x7000_3FFF {
            get(self.mem.spad, addr - 0x7000_0000, n as int) as u64
        } else if 0x1000_0000 <= addr <= 0x1000_FFFF {
            self.mmio_value(addr, n)
        } else if 0x1100_0000 <= addr <= 0x1100_FFFF {
            self.reply
        } else if 0x1200_0000 <= addr <= 0x1200_1FFF {
            self.gs_value(addr, n)
        } else if 0x1C00_0000 <= addr <= 0x1C1F_FFFF {
            get(self.mem.iop_ram, addr - 0x1C00_0000, n as int) as u64
        } else if 0x1FC0_0000 <= addr <= 0x1FFF_FFFF {
            get(self.mem.bios, addr - 0x1FC0_0000, n as int) as u64
        } else if 0x1F40_2000 <= addr <= 0x1F40_203F {
            // CDVD (MECHACON) registers, also visible from the EE.
            self.cdvd.value(addr as int % 64, self.ee.now) as u64
        } else if 0x1E00_0000 <= addr <= 0x1E3F_FFFF {
            // ROM1 (DVD player ROM): absent, reads like erased flash.
            if n == 8 {
                u64::MAX
            } else if n == 4 {
                0xFFFF_FFFF
            } else if n == 2 {
                0xFFFF
            } else {
                0xFF
            }
        } else if 0x1A00_0000 <= addr <= 0x1A00_FFFF && addr % 256 == 6 {
            // SBUS CRT controller: command done.
            2
        } else {
            0
        }
    }

    /// What a read does: the RDRAM handshake and the CDVD's result FIFO move
    /// on.
    pub open spec fn phys_read(self, addr: u32) -> BusModel {
        if 0x1000_0000 <= addr <= 0x1000_FFFF {
            self.mmio_read(addr)
        } else if 0x1F40_2000 <= addr <= 0x1F40_203F {
            BusModel { cdvd: self.cdvd.read(addr as int % 64), ..self }
        } else {
            self
        }
    }

    /// After a write of `n` bytes at a physical address. ROM and unmapped
    /// addresses ignore it.
    pub open spec fn phys_written(self, addr: u32, n: usize, v: u64) -> BusModel {
        if addr < RAM_SIZE {
            BusModel { mem: self.mem.ram_put(addr as int, n as int, v as nat), ..self }
        } else if 0x7000_0000 <= addr <= 0x7000_3FFF {
            BusModel {
                mem: MemModel { spad: put(self.mem.spad, addr - 0x7000_0000, n as int, v as nat), ..self.mem },
                ..self
            }
        } else if 0x1000_0000 <= addr <= 0x1000_FFFF {
            self.mmio_written(addr, n, v)
        } else if 0x1100_0000 <= addr <= 0x1100_FFFF {
            BusModel { events: self.events.push(Event::Vu { addr, size: n, v }), ..self }
        } else if 0x1200_0000 <= addr <= 0x1200_1FFF {
            self.gs_written(addr, n, v)
        } else if 0x1C00_0000 <= addr <= 0x1C1F_FFFF {
            BusModel {
                mem: MemModel { iop_ram: put(self.mem.iop_ram, addr - 0x1C00_0000, n as int, v as nat), ..self.mem },
                ..self
            }
        } else {
            self
        }
    }

    pub open spec fn phys(self, vaddr: u32) -> u32 {
        translated(self.tlb, vaddr)
    }

    // --- the debugger ------------------------------------------------------------

    /// The channel whose registers a debugger sees at `r`.
    pub open spec fn peek_channel(r: int) -> Option<Channel> {
        let base = r - r % 0x40;
        if base == 0x1000_8000 {
            Some(Channel::Vif0)
        } else if base == 0x1000_9000 {
            Some(Channel::Vif1)
        } else if base == 0x1000_A000 {
            Some(Channel::Gif)
        } else if base == 0x1000_D000 {
            Some(Channel::SprFrom)
        } else if base == 0x1000_D400 {
            Some(Channel::SprTo)
        } else if base == 0x1000_B400 {
            Some(Channel::IpuTo)
        } else if base == 0x1000_C000 {
            Some(Channel::Sif0)
        } else if base == 0x1000_C400 {
            Some(Channel::Sif1)
        } else {
            None
        }
    }

    /// A register whose read is a plain load of state: FIFOs, the RDRAM
    /// handshake and everything not listed are refused, rather than being
    /// answered with a value a real read would not have produced.
    pub open spec fn peek_reg(self, r: int) -> Option<u32> {
        if r < 0x1000_2000 || (0x1000_F200 <= r <= 0x1000_F26C) {
            Some((self.reply % 0x1_0000_0000) as u32)
        } else if BusModel::peek_channel(r) is Some {
            Some(reg_get(self.channel(BusModel::peek_channel(r)->Some_0), r % 0x40 / 16 * 16))
        } else if r == 0x1000_D080 {
            Some(self.ee.spr_from.sadr)
        } else if r == 0x1000_D480 {
            Some(self.ee.spr_to.sadr)
        } else if r == 0x1000_E010 {
            Some(self.ee.d_stat | (self.ee.d_mask << 16))
        } else if r == 0x1000_F000 {
            Some(self.ee.intc_stat)
        } else if r == 0x1000_F010 {
            Some(self.ee.intc_mask)
        } else {
            None
        }
    }

    /// What a debugger's byte read at a physical address gives.
    pub open spec fn peeked(self, addr: u32) -> Option<u8> {
        if addr < RAM_SIZE {
            Some(self.mem.ram[addr as int])
        } else if 0x7000_0000 <= addr <= 0x7000_3FFF {
            Some(self.mem.spad[addr - 0x7000_0000])
        } else if 0x1C00_0000 <= addr <= 0x1C1F_FFFF {
            Some(self.mem.iop_ram[addr - 0x1C00_0000])
        } else if 0x1FC0_0000 <= addr <= 0x1FFF_FFFF {
            Some(self.mem.bios[addr - 0x1FC0_0000])
        } else if 0x1200_0000 <= addr <= 0x1200_1FFF {
            let v = self.front.priv_value((addr - addr % 8) as u32);
            Some(((v >> ((addr % 8 * 8) as u64)) % 256) as u8)
        } else if 0x1000_0000 <= addr <= 0x1000_FFFF {
            match self.peek_reg(addr - addr % 4) {
                Some(v) => Some(((v >> ((addr % 4 * 8) as u32)) % 256) as u8),
                None => None,
            }
        } else {
            None
        }
    }

    /// Memory that a debugger may write: ROM and MMIO are refused.
    pub open spec fn pokes(addr: u32) -> bool {
        addr < RAM_SIZE || (0x7000_0000 <= addr <= 0x7000_3FFF) || (0x1C00_0000 <= addr <= 0x1C1F_FFFF)
    }

    /// After a debugger's byte write.
    pub open spec fn poked(self, addr: u32, v: u8) -> BusModel {
        if addr < RAM_SIZE {
            BusModel {
                mem: MemModel {
                    ram: self.mem.ram.update(addr as int, v),
                    dirty: noted(self.mem.code_pages, self.mem.dirty, addr as int),
                    ..self.mem
                },
                ..self
            }
        } else if 0x7000_0000 <= addr <= 0x7000_3FFF {
            BusModel { mem: MemModel { spad: self.mem.spad.update(addr - 0x7000_0000, v), ..self.mem }, ..self }
        } else if 0x1C00_0000 <= addr <= 0x1C1F_FFFF {
            BusModel { mem: MemModel { iop_ram: self.mem.iop_ram.update(addr - 0x1C00_0000, v), ..self.mem }, ..self }
        } else {
            self
        }
    }
}

} // verus!
