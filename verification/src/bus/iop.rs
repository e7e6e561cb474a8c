//! The IOP's side of the bus.

use vstd::prelude::*;
use crate::bytes::{get, put};
use super::iop_timer::IopTimer;
use super::memory::{extract_sub_word, is_size, merge_sub_word, merged_word, read_le, sub_word, write_le, MemModel, IOP_RAM_SIZE};
use super::regs::{BusModel, EeRegs, Event, IopRegs};
use super::sif::{IopDmaChannel, IOP_CHCR_BUSY};
use super::sio2::SioModel;
use super::Bus;

verus! {

/// Bytes that a BCR asks for: block size in words (low 16) by block count
/// (high 16), each at least one.
pub open spec fn bcr_bytes(bcr: u32) -> int {
    let size: int = if bcr % 0x1_0000 == 0 {
        1
    } else {
        bcr as int % 0x1_0000
    };
    let blocks: int = if bcr < 0x1_0000 {
        1
    } else {
        bcr as int / 0x1_0000
    };
    4 * (size * blocks)
}

fn iop_bcr_bytes(bcr: u32) -> (n: u64)
    ensures
        n == bcr_bytes(bcr),
        n <= 0x4_0000_0000,
{
    let low: u64 = bcr as u64 % 0x1_0000;
    let high: u64 = bcr as u64 / 0x1_0000;
    let size: u64 = if low == 0 { 1 } else { low };
    let blocks: u64 = if high == 0 { 1 } else { high };
    assert(size * blocks <= 0x1_0000 * 0x1_0000) by (nonlinear_arith)
        requires
            size <= 0x1_0000,
            blocks <= 0x1_0000,
    ;
    4 * (size * blocks)
}

/// Bytes written into a memory that wraps, one after the other.
pub open spec fn ring_put(mem: Seq<u8>, start: int, data: Seq<u8>) -> Seq<u8>
    decreases data.len(),
{
    if data.len() == 0 {
        mem
    } else {
        ring_put(mem, start, data.drop_last()).update((start + data.len() - 1) % (mem.len() as int), data.last())
    }
}

/// Bytes read out of a memory that wraps.
pub open spec fn ring_get(mem: Seq<u8>, start: int, n: int) -> Seq<u8> {
    Seq::new(n as nat, |i: int| mem[(start + i) % (mem.len() as int)])
}

proof fn lemma_ring_len(mem: Seq<u8>, start: int, data: Seq<u8>)
    requires
        mem.len() > 0,
    ensures
        ring_put(mem, start, data).len() == mem.len(),
    decreases data.len(),
{
    if data.len() > 0 {
        lemma_ring_len(mem, start, data.drop_last());
        vstd::arithmetic::div_mod::lemma_mod_bound(start + data.len() - 1, mem.len() as int);
    }
}

/// Counter of an address: 0-2 at 0x1F8011x0 (16-bit), 3-5 at
/// 0x1F8014{8,9,A}0 (32-bit).
pub open spec fn timer_at(addr: u32) -> Option<int> {
    let a = addr as int % 0x1_0000 / 16 * 16;
    if a == 0x1100 {
        Some(0int)
    } else if a == 0x1110 {
        Some(1int)
    } else if a == 0x1120 {
        Some(2int)
    } else if a == 0x1480 {
        Some(3int)
    } else if a == 0x1490 {
        Some(4int)
    } else if a == 0x14A0 {
        Some(5int)
    } else {
        None
    }
}

fn iop_timer_index(addr: u32) -> (t: Option<usize>)
    ensures
        match t {
            Some(t) => timer_at(addr) == Some(t as int) && t < 6,
            None => timer_at(addr) is None,
        },
{
    match addr % 0x1_0000 / 16 * 16 {
        0x1100 => Some(0),
        0x1110 => Some(1),
        0x1120 => Some(2),
        0x1480 => Some(3),
        0x1490 => Some(4),
        0x14A0 => Some(5),
        _ => None,
    }
}

/// A channel register written; the start bit does not stay.
pub open spec fn iop_reg_set(c: IopDmaChannel, r: int, v: u32) -> IopDmaChannel {
    if r == 0 {
        IopDmaChannel { madr: (v % 0x100_0000) as u32, ..c }
    } else if r == 4 {
        IopDmaChannel { bcr: v, ..c }
    } else {
        IopDmaChannel { chcr: v & !IOP_CHCR_BUSY, ..c }
    }
}

fn set_iop_reg(c: IopDmaChannel, r: u32, v: u32) -> (d: IopDmaChannel)
    ensures
        d == iop_reg_set(c, r as int, v),
{
    let mut d = c;
    if r == 0 {
        d.madr = v % 0x100_0000;
    } else if r == 4 {
        d.bcr = v;
    } else {
        d.chcr = v & !IOP_CHCR_BUSY;
    }
    d
}

/// A byte lane of an SPU2 channel register written.
pub open spec fn spu_reg_set(c: IopDmaChannel, addr: u32, n: usize, v: u32) -> IopDmaChannel {
    let r = addr as int % 16 / 4 * 4;
    if r == 0 {
        IopDmaChannel { madr: (merged_word(c.madr, addr, n, v) % 0x100_0000) as u32, ..c }
    } else if r == 4 {
        IopDmaChannel { bcr: merged_word(c.bcr, addr, n, v), ..c }
    } else {
        IopDmaChannel { chcr: merged_word(c.chcr, addr, n, v), ..c }
    }
}

fn set_spu_reg(c: IopDmaChannel, addr: u32, n: usize, v: u32) -> (d: IopDmaChannel)
    requires
        is_size(n),
        n <= 4,
    ensures
        d == spu_reg_set(c, addr, n, v),
{
    let mut d = c;
    let r: u32 = addr % 16 / 4 * 4;
    if r == 0 {
        d.madr = merge_sub_word(c.madr, addr, n, v) % 0x100_0000;
    } else if r == 4 {
        d.bcr = merge_sub_word(c.bcr, addr, n, v);
    } else {
        d.chcr = merge_sub_word(c.chcr, addr, n, v);
    }
    d
}

impl BusModel {
    pub open spec fn with_iop_ram(self, ram: Seq<u8>) -> BusModel {
        BusModel { mem: MemModel { iop_ram: ram, ..self.mem }, ..self }
    }

    /// Staged CDVD sector data drained into RAM by DMA ch3.
    #[verifier::opaque]
    pub open spec fn cdvd_dma(self) -> BusModel {
        let n = bcr_bytes(self.iop.cdvd.bcr);
        let m = self.with_iop_ram(
            ring_put(self.mem.iop_ram, self.iop.cdvd.madr as int % 0x20_0000, self.cdvd.staged(n)),
        );
        BusModel { cdvd: self.cdvd.drained(n), iop: self.iop.dma_done(3), ..m }
    }

    /// The SIO2 out-FIFO drained into RAM by DMA ch12.
    #[verifier::opaque]
    pub open spec fn sio2_out(self) -> BusModel {
        let n = bcr_bytes(self.iop.sio2out.bcr);
        let m = self.with_iop_ram(
            ring_put(self.mem.iop_ram, self.iop.sio2out.madr as int % 0x20_0000, self.sio.response(n)),
        );
        BusModel { sio: self.sio.drained(n), iop: self.iop.dma_done(12), ..m }
    }

    /// An SIO2 transfer completed: its interrupt line, and the copy that
    /// waited for the response.
    #[verifier::opaque]
    pub open spec fn sio2_done(self) -> BusModel {
        let m = BusModel {
            iop: IopRegs {
                i_stat: if self.sio.istat == 0 {
                    self.iop.i_stat | 0x2_0000
                } else {
                    self.iop.i_stat
                },
                ..self.iop
            },
            sio: self.sio.irq_raised(),
            ..self
        };
        if m.iop.sio2out_deferred {
            BusModel { iop: IopRegs { sio2out_deferred: false, ..m.iop }, ..m }.sio2_out()
        } else {
            m
        }
    }

    /// Command bytes fed to the SIO2 by DMA ch11; a start that waited for
    /// them runs.
    #[verifier::opaque]
    pub open spec fn sio2_in(self) -> BusModel {
        let c = self.iop.sio2in;
        let data = ring_get(self.mem.iop_ram, c.madr as int % 0x20_0000, bcr_bytes(c.bcr));
        let sio = self.sio.fed(data, (c.bcr % 0x1_0000 * 4) as usize, (c.bcr / 0x1_0000) as usize);
        let m = if sio.pending {
            BusModel { sio: SioModel { pending: false, ..sio }.ran(), ..self }.sio2_done()
        } else {
            BusModel { sio, ..self }
        };
        BusModel { iop: m.iop.dma_done(11), ..m }
    }

    // --- channels --------------------------------------------------------------------

    pub open spec fn with_iop(self, iop: IopRegs) -> BusModel {
        BusModel { iop, ..self }
    }

    /// A started CDVD DMA (ch3): the channel is usually armed before the N
    /// read command, so the copy is held until data is staged by a drive
    /// that is not busy.
    #[verifier::opaque]
    pub open spec fn cdvd_kicked(self) -> BusModel {
        if self.cdvd.drive.n_busy || self.cdvd.read_pos == self.cdvd.read_buf.len() {
            self.with_iop(IopRegs { cdvd_deferred: true, ..self.iop })
        } else {
            self.cdvd_dma()
        }
    }

    /// A started SIO2 out DMA (ch12): the hardware channel waits on the
    /// SIO2's DRQ, so the copy is held while the transfer has not produced
    /// its response yet.
    #[verifier::opaque]
    pub open spec fn sio2out_kicked(self) -> BusModel {
        if self.sio.out_pos >= self.sio.fifo_out.len() && (self.sio.pending || self.sio.fifo_in.len() > 0) {
            self.with_iop(IopRegs { sio2out_deferred: true, ..self.iop })
        } else {
            self.sio2_out()
        }
    }

    /// The CDVD channel (ch3).
    #[verifier::opaque]
    pub open spec fn cdvd_channel(self, r: int, v: u32) -> BusModel {
        let m = self.with_iop(IopRegs { cdvd: iop_reg_set(self.iop.cdvd, r, v), ..self.iop });
        if r == 8 && v & IOP_CHCR_BUSY != 0 {
            m.cdvd_kicked()
        } else {
            m
        }
    }

    /// SIO2 in (ch11).
    #[verifier::opaque]
    pub open spec fn sio2in_channel(self, r: int, v: u32) -> BusModel {
        let m = self.with_iop(IopRegs { sio2in: iop_reg_set(self.iop.sio2in, r, v), ..self.iop });
        if r == 8 && v & IOP_CHCR_BUSY != 0 {
            m.sio2_in()
        } else {
            m
        }
    }

    /// SIO2 out (ch12).
    #[verifier::opaque]
    pub open spec fn sio2out_channel(self, r: int, v: u32) -> BusModel {
        let m = self.with_iop(IopRegs { sio2out: iop_reg_set(self.iop.sio2out, r, v), ..self.iop });
        if r == 8 && v & IOP_CHCR_BUSY != 0 {
            m.sio2out_kicked()
        } else {
            m
        }
    }

    /// The IOP's SIF channels (ch9, ch10): a started transfer pumps.
    #[verifier::opaque]
    pub open spec fn iop_sif_channel(self, second: bool, r: int, v: u32) -> BusModel {
        let c = if second {
            self.iop_sif1
        } else {
            self.iop_sif0
        };
        let d = if r == 0 {
            IopDmaChannel { madr: v % 0x100_0000, ..c }
        } else if r == 4 {
            IopDmaChannel { bcr: v, ..c }
        } else if r == 8 {
            IopDmaChannel { chcr: v, ..c }
        } else {
            IopDmaChannel { tadr: v % 0x100_0000, ..c }
        };
        let m = if second {
            BusModel { iop_sif1: d, ..self }
        } else {
            BusModel { iop_sif0: d, ..self }
        };
        if r == 8 && v & IOP_CHCR_BUSY != 0 {
            m.sif_pumped()
        } else {
            m
        }
    }

    /// A kicked SPU2 DMA goes to the SPU2; the channel stays busy until the
    /// completion ([`Bus::tick_timers`]).
    #[verifier::opaque]
    pub open spec fn spu_kicked(self, core: u8, c: IopDmaChannel) -> BusModel {
        BusModel {
            events: self.events.push(
                Event::SpuDma {
                    core,
                    to_spu: c.chcr & 1 != 0,
                    start: (c.madr % 0x20_0000) as u32,
                    bytes: bcr_bytes(c.bcr) as u64,
                },
            ),
            ee: EeRegs { timers_due: 0, ..self.ee },
            ..self
        }
    }

    /// The SPU2 channels (ch4 = core 0, ch7 = core 1), with sub-word
    /// accesses.
    #[verifier::opaque]
    pub open spec fn spu_channel(self, core: u8, addr: u32, n: usize, v: u32) -> BusModel {
        let c = if core == 0 {
            self.iop.spu0
        } else {
            self.iop.spu1
        };
        let d = spu_reg_set(c, addr, n, v);
        let m = if core == 0 {
            self.with_iop(IopRegs { spu0: d, ..self.iop })
        } else {
            self.with_iop(IopRegs { spu1: d, ..self.iop })
        };
        if addr % 16 >= 8 && d.chcr & IOP_CHCR_BUSY != 0 {
            m.spu_kicked(core, d)
        } else {
            m
        }
    }

    // --- MMIO ------------------------------------------------------------------------

    /// A counter's register written.
    #[verifier::opaque]
    pub open spec fn timer_written(self, t: int, r: int, v: u32) -> BusModel {
        let c = self.timers[t];
        let d = if r == 0 {
            IopTimer { base: v, base_cycle: self.ee.now, ..c }
        } else if r == 4 {
            // Writing MODE restarts the counter, as on hardware.
            IopTimer { mode: v, base: 0, base_cycle: self.ee.now, last_check: self.ee.now, ..c }
        } else if r == 8 {
            IopTimer { target: v, ..c }
        } else {
            c
        };
        BusModel { timers: self.timers.update(t, d), ee: EeRegs { timers_due: 0, ..self.ee }, ..self }
    }

    /// The interrupt registers. A write to I_STAT acknowledges: it keeps
    /// only bits written as 1. DICR and DICR2 have enables in bits 16-23 and
    /// flags (write-1-to-clear) in bits 24-30.
    #[verifier::opaque]
    pub open spec fn iop_interrupts_written(self, addr: u32, v: u32) -> BusModel {
        let i = self.iop;
        let iop = if addr == 0x1F80_1070 {
            IopRegs { i_stat: i.i_stat & v, ..i }
        } else if addr == 0x1F80_1074 {
            IopRegs { i_mask: v, ..i }
        } else if addr == 0x1F80_1078 {
            IopRegs { i_ctrl: v, ..i }
        } else if addr == 0x1F80_10F4 {
            IopRegs { dicr: (v & 0x00FF_FFFF) | (i.dicr & !(v & 0x7F00_0000) & 0x7F00_0000), ..i }
        } else {
            IopRegs { dicr2: (v & 0x00FF_FFFF) | (i.dicr2 & !(v & 0x7F00_0000) & 0x7F00_0000), ..i }
        };
        BusModel { iop, ..self }
    }

    /// A register write at IOP MMIO address `addr`.
    #[verifier::opaque]
    pub open spec fn iop_mmio_written(self, addr: u32, n: usize, v: u32) -> BusModel {
        if timer_at(addr) is Some {
            self.timer_written(timer_at(addr)->Some_0, addr as int % 16, v)
        } else if 0x1F80_8200 <= addr <= 0x1F80_82FF {
            let m = BusModel { sio: self.sio.written(addr as int % 256, v), ..self };
            if self.sio.completes(addr as int % 256, v) {
                m.sio2_done()
            } else {
                m
            }
        } else if addr == 0x1F80_1070 || addr == 0x1F80_1074 || addr == 0x1F80_1078 || addr == 0x1F80_10F4 || addr
            == 0x1F80_1574 {
            self.iop_interrupts_written(addr, v)
        } else if addr == 0x1F80_10B0 || addr == 0x1F80_10B4 || addr == 0x1F80_10B8 {
            self.cdvd_channel(addr as int % 16, v)
        } else if 0x1F80_10C0 <= addr <= 0x1F80_10CB {
            self.spu_channel(0, addr, n, v)
        } else if 0x1F80_1500 <= addr <= 0x1F80_150B {
            self.spu_channel(1, addr, n, v)
        } else if addr == 0x1F80_1520 || addr == 0x1F80_1524 || addr == 0x1F80_1528 || addr == 0x1F80_152C {
            self.iop_sif_channel(false, addr as int % 16, v)
        } else if addr == 0x1F80_1530 || addr == 0x1F80_1534 || addr == 0x1F80_1538 || addr == 0x1F80_153C {
            self.iop_sif_channel(true, addr as int % 16, v)
        } else if addr == 0x1F80_1540 || addr == 0x1F80_1544 || addr == 0x1F80_1548 {
            self.sio2in_channel(addr as int % 16, v)
        } else if addr == 0x1F80_1550 || addr == 0x1F80_1554 || addr == 0x1F80_1558 {
            self.sio2out_channel(addr as int % 16, v)
        } else if addr == 0x1F80_2070 {
            // POST: boot progress byte from the IOP BIOS.
            self
        } else {
            BusModel { iop_mmio: put(self.iop_mmio, addr as int % 0x1_0000, n as int, v as nat), ..self }
        }
    }

    /// A channel's register.
    pub open spec fn iop_reg_get(c: IopDmaChannel, r: int) -> u32 {
        if r == 0 {
            c.madr
        } else if r == 4 {
            c.bcr
        } else if r == 8 {
            c.chcr
        } else {
            c.tadr
        }
    }

    /// What an IOP MMIO read gives.
    pub open spec fn iop_mmio_value(self, addr: u32, n: usize) -> u32 {
        let r = addr as int % 16;
        let shadow = get(self.iop_mmio, addr as int % 0x1_0000, n as int) as u32;
        if timer_at(addr) is Some {
            let t = timer_at(addr)->Some_0;
            let c = self.timers[t];
            if r == 0 {
                c.value(t, self.ee.now, self.ee.region.hblank()) as u32
            } else if r == 4 {
                c.mode
            } else if r == 8 {
                c.target
            } else {
                0
            }
        } else if 0x1F80_8200 <= addr <= 0x1F80_82FF {
            self.sio.value(addr as int % 256)
        } else if addr == 0x1F80_1070 {
            self.iop.i_stat
        } else if addr == 0x1F80_1074 {
            self.iop.i_mask
        } else if addr == 0x1F80_1078 {
            self.iop.i_ctrl
        } else if addr == 0x1F80_10B0 || addr == 0x1F80_10B4 || addr == 0x1F80_10B8 {
            BusModel::iop_reg_get(self.iop.cdvd, r)
        } else if addr == 0x1F80_1520 || addr == 0x1F80_1524 || addr == 0x1F80_1528 || addr == 0x1F80_152C {
            BusModel::iop_reg_get(self.iop_sif0, r)
        } else if addr == 0x1F80_1530 || addr == 0x1F80_1534 || addr == 0x1F80_1538 || addr == 0x1F80_153C {
            BusModel::iop_reg_get(self.iop_sif1, r)
        } else if addr == 0x1F80_1540 || addr == 0x1F80_1544 || addr == 0x1F80_1548 {
            BusModel::iop_reg_get(self.iop.sio2in, r)
        } else if addr == 0x1F80_1550 || addr == 0x1F80_1554 || addr == 0x1F80_1558 {
            BusModel::iop_reg_get(self.iop.sio2out, r)
        } else if 0x1F80_10C0 <= addr <= 0x1F80_10CB {
            sub_word(BusModel::iop_reg_get(self.iop.spu0, r / 4 * 4), addr, n)
        } else if 0x1F80_1500 <= addr <= 0x1F80_150B {
            sub_word(BusModel::iop_reg_get(self.iop.spu1, r / 4 * 4), addr, n)
        } else if addr == 0x1F80_10F4 {
            self.iop.dicr
        } else if addr == 0x1F80_1574 {
            self.iop.dicr2
        } else if addr == 0x1F80_1600 {
            // USB OHCI: HcRevision identifies the controller; zero would say
            // there is none.
            0x10
        } else if addr == 0x1F80_1608 {
            // HcCommandStatus's reset bit has to read back clear, or USBD
            // waits forever.
            shadow & !1u32
        } else {
            shadow
        }
    }

    /// What an IOP MMIO read does: MODE clears the reached flags, I_CTRL the
    /// master enable bit, and the SIO2's out-FIFO moves on.
    pub open spec fn iop_mmio_read(self, addr: u32) -> BusModel {
        if timer_at(addr) is Some {
            let t = timer_at(addr)->Some_0;
            if addr % 16 == 4 {
                let c = self.timers[t];
                BusModel { timers: self.timers.update(t, IopTimer { mode: c.mode & !0x1800u32, ..c }), ..self }
            } else {
                self
            }
        } else if 0x1F80_8200 <= addr <= 0x1F80_82FF {
            BusModel { sio: self.sio.read(addr as int % 256), ..self }
        } else if addr == 0x1F80_1078 {
            BusModel { iop: IopRegs { i_ctrl: self.iop.i_ctrl & !1u32, ..self.iop }, ..self }
        } else {
            self
        }
    }

    // --- the IOP's address map ----------------------------------------------------------

    /// An access that stays inside the memory it starts in.
    pub open spec fn iop_fits(vaddr: u32, n: usize) -> bool {
        let addr = vaddr as int % 0x2000_0000;
        if vaddr >= 0xFFFE_0000 {
            true
        } else if addr < 0x80_0000 {
            addr % 0x20_0000 + n <= 0x20_0000
        } else if 0x1F80_0000 <= addr <= 0x1F80_03FF {
            addr + n <= 0x1F80_0400
        } else if 0x1F80_1000 <= addr <= 0x1F80_FFFF {
            addr + n <= 0x1F81_0000
        } else if addr >= 0x1FC0_0000 {
            addr + n <= 0x2000_0000
        } else {
            true
        }
    }

    /// Addresses that only a device outside the bus can answer: the SIF
    /// mailboxes and the SPU2.
    pub open spec fn iop_device(vaddr: u32) -> bool {
        let addr = vaddr as int % 0x2000_0000;
        vaddr < 0xFFFE_0000 && ((0x1D00_0000 <= addr <= 0x1D00_00FF) || (0x1F90_0000 <= addr <= 0x1F90_0FFF))
    }

    /// What an IOP read gives.
    pub open spec fn iop_value(self, vaddr: u32, n: usize) -> u32 {
        let addr = (vaddr % 0x2000_0000) as u32;
        if vaddr >= 0xFFFE_0000 {
            // KSEG2 (cache control etc.) is not mapped to physical memory.
            0
        } else if addr < 0x80_0000 {
            // 2 MiB RAM, mirrored through the first 8 MiB.
            get(self.mem.iop_ram, addr as int % 0x20_0000, n as int) as u32
        } else if 0x1F80_0000 <= addr <= 0x1F80_03FF {
            get(self.mem.iop_spad, addr - 0x1F80_0000, n as int) as u32
        } else if 0x1F80_1000 <= addr <= 0x1F80_FFFF {
            self.iop_mmio_value(addr, n)
        } else if BusModel::iop_device(vaddr) {
            (self.reply % 0x1_0000_0000) as u32
        } else if 0x1F40_2000 <= addr <= 0x1F40_203F {
            self.cdvd.value(addr as int % 64, self.ee.now)
        } else if 0x1E00_0000 <= addr <= 0x1E3F_FFFF {
            // ROM1 (DVD player ROM): not present, reads like erased flash.
            u32::MAX
        } else if addr >= 0x1FC0_0000 {
            get(self.mem.bios, addr - 0x1FC0_0000, n as int) as u32
        } else {
            0
        }
    }

    pub open spec fn iop_read(self, vaddr: u32) -> BusModel {
        let addr = (vaddr % 0x2000_0000) as u32;
        if vaddr >= 0xFFFE_0000 {
            self
        } else if 0x1F80_1000 <= addr <= 0x1F80_FFFF {
            self.iop_mmio_read(addr)
        } else if 0x1F40_2000 <= addr <= 0x1F40_203F {
            BusModel { cdvd: self.cdvd.read(addr as int % 64), ..self }
        } else {
            self
        }
    }

    /// A CDVD register written. An N command completes (and interrupts the
    /// IOP) after the drive latency; the host hears what it asks for.
    #[verifier::opaque]
    pub open spec fn cdvd_written(self, r: int, b: u8) -> BusModel {
        let m = BusModel { cdvd: self.cdvd.written(r, b), ..self };
        if r == 4 {
            let (cmd, latency) = self.cdvd.n_asked(b);
            BusModel {
                iop: IopRegs { cdvd_done_at: Some((self.ee.now + latency) as u64), ..m.iop },
                ee: EeRegs { timers_due: 0, ..m.ee },
                events: m.events.push(Event::Cdvd(cmd)),
                ..m
            }
        } else {
            m
        }
    }

    /// A SIF register written; the IOP raising SMFLG interrupts the EE (INTC
    /// SBUS).
    pub open spec fn iop_sif_written(self, addr: u32, v: u32) -> BusModel {
        BusModel {
            events: self.events.push(Event::Sif { iop: true, addr, v }),
            ee: if addr as int % 256 / 16 == 3 {
                self.ee.raised(2)
            } else {
                self.ee
            },
            ..self
        }
    }

    /// After an IOP write.
    pub open spec fn iop_written(self, vaddr: u32, n: usize, v: u32) -> BusModel {
        let addr = (vaddr % 0x2000_0000) as u32;
        if vaddr >= 0xFFFE_0000 {
            self
        } else if addr < 0x80_0000 {
            self.with_iop_ram(put(self.mem.iop_ram, addr as int % 0x20_0000, n as int, v as nat))
        } else if 0x1F80_0000 <= addr <= 0x1F80_03FF {
            BusModel {
                mem: MemModel { iop_spad: put(self.mem.iop_spad, addr - 0x1F80_0000, n as int, v as nat), ..self.mem },
                ..self
            }
        } else if 0x1F80_1000 <= addr <= 0x1F80_FFFF {
            self.iop_mmio_written(addr, n, v)
        } else if 0x1D00_0000 <= addr <= 0x1D00_00FF {
            self.iop_sif_written(addr, v)
        } else if 0x1F40_2000 <= addr <= 0x1F40_203F {
            self.cdvd_written(addr as int % 64, (v % 256) as u8)
        } else if 0x1F90_0000 <= addr <= 0x1F90_0FFF {
            BusModel {
                events: self.events.push(Event::Spu { addr: (addr % 0x1000) as u32, size: n, v }),
                ee: EeRegs { timers_due: 0, ..self.ee },
                ..self
            }
        } else {
            self
        }
    }
}

impl Bus {
    // --- IOP DMA ---------------------------------------------------------------------

    fn put_iop_byte(&mut self, at: usize, b: u8)
        requires
            old(self).wf(),
            at < IOP_RAM_SIZE,
        ensures
            final(self).wf(),
            final(self).model() == old(self).model().with_iop_ram(old(self).mem.iop_ram@.update(at as int, b)),
    {
        self.mem.iop_ram[at] = b;
    }

    /// Drain staged CDVD sector data into RAM for DMA ch3.
    pub(crate) fn do_cdvd_dma(&mut self)
        requires
            old(self).wf(),
        ensures
            final(self).wf(),
            final(self).model() == old(self).model().cdvd_dma(),
    {
        proof {
            reveal(BusModel::cdvd_dma);
        }
        let ghost start = self.model();
        let n: u64 = iop_bcr_bytes(self.iop.cdvd.bcr);
        let at: u64 = self.iop.cdvd.madr as u64 % 0x20_0000;
        let mut i: u64 = 0;
        while i < n
            invariant
                i <= n,
                n <= 0x4_0000_0000,
                at < 0x20_0000,
                start.mem.iop_ram.len() == IOP_RAM_SIZE,
                0 <= start.cdvd.read_pos <= start.cdvd.read_buf.len(),
                self.wf(),
                self.model() == (BusModel {
                    cdvd: start.cdvd.drained(i as int),
                    ..start.with_iop_ram(ring_put(start.mem.iop_ram, at as int, start.cdvd.staged(i as int)))
                }),
            decreases n - i,
        {
            let b = self.cdvd.next_byte();
            self.put_iop_byte(((at + i) % 0x20_0000) as usize, b);
            proof {
                let s = start.cdvd.staged(i + 1);
                assert(s.drop_last() =~= start.cdvd.staged(i as int));
                lemma_ring_len(start.mem.iop_ram, at as int, start.cdvd.staged(i as int));
            }
            i = i + 1;
        }
        self.iop.iop_dma_irq(3);
    }

    /// Drain the SIO2 out-FIFO into RAM for DMA ch12.
    fn do_sio2_out(&mut self)
        requires
            old(self).wf(),
        ensures
            final(self).wf(),
            final(self).model() == old(self).model().sio2_out(),
    {
        proof {
            reveal(BusModel::sio2_out);
        }
        let ghost start = self.model();
        let n: u64 = iop_bcr_bytes(self.iop.sio2out.bcr);
        let at: u64 = self.iop.sio2out.madr as u64 % 0x20_0000;
        let mut i: u64 = 0;
        while i < n
            invariant
                i <= n,
                n <= 0x4_0000_0000,
                at < 0x20_0000,
                start.mem.iop_ram.len() == IOP_RAM_SIZE,
                0 <= start.sio.out_pos <= start.sio.fifo_out.len(),
                self.wf(),
                self.model() == (BusModel {
                    sio: start.sio.drained(i as int),
                    ..start.with_iop_ram(ring_put(start.mem.iop_ram, at as int, start.sio.response(i as int)))
                }),
            decreases n - i,
        {
            let b: u8 = (self.sio2.read(0x1F80_8264) % 256) as u8;
            self.put_iop_byte(((at + i) % 0x20_0000) as usize, b);
            proof {
                let s = start.sio.response(i + 1);
                assert(s.drop_last() =~= start.sio.response(i as int));
                lemma_ring_len(start.mem.iop_ram, at as int, start.sio.response(i as int));
            }
            i = i + 1;
        }
        self.iop.iop_dma_irq(12);
    }

    fn sio2_completed(&mut self)
        requires
            old(self).wf(),
        ensures
            final(self).wf(),
            final(self).model() == old(self).model().sio2_done(),
    {
        proof {
            reveal(BusModel::sio2_done);
        }
        if self.sio2.raise_irq() {
            self.iop.i_stat = self.iop.i_stat | 0x2_0000;
        }
        if self.iop.sio2out_deferred {
            self.iop.sio2out_deferred = false;
            self.do_sio2_out();
        }
    }

    fn do_sio2_in(&mut self)
        requires
            old(self).wf(),
        ensures
            final(self).wf(),
            final(self).model() == old(self).model().sio2_in(),
    {
        proof {
            reveal(BusModel::sio2_in);
        }
        let bcr: u32 = self.iop.sio2in.bcr;
        let n: u64 = iop_bcr_bytes(bcr);
        let data = self.iop_ring(self.iop.sio2in.madr % 0x20_0000, n);
        self.sio2.dma_in(data.as_slice(), (bcr % 0x1_0000 * 4) as usize, (bcr / 0x1_0000) as usize);
        if self.sio2.dma_in_done() {
            self.sio2_completed();
        }
        self.iop.iop_dma_irq(11);
    }

    /// IOP RAM from `start` on, wrapping, as a DMA sees it.
    pub fn iop_ring(&self, start: u32, n: u64) -> (data: Vec<u8>)
        requires
            self.wf(),
            start < 0x20_0000,
            n <= 0x4_0000_0000,
        ensures
            data@ == ring_get(self.mem.iop_ram@, start as int, n as int),
    {
        let mut data: Vec<u8> = Vec::new();
        let mut i: u64 = 0;
        while i < n
            invariant
                self.wf(),
                start < 0x20_0000,
                i <= n,
                n <= 0x4_0000_0000,
                data@ == ring_get(self.mem.iop_ram@, start as int, i as int),
            decreases n - i,
        {
            data.push(self.mem.iop_ram[((start as u64 + i) % 0x20_0000) as usize]);
            i = i + 1;
            assert(data@ =~= ring_get(self.mem.iop_ram@, start as int, i as int));
        }
        data
    }

    /// What an SPU2 DMA read back, into IOP RAM from `start` on, wrapping.
    pub fn iop_ring_write(&mut self, start: u32, data: &[u8])
        requires
            old(self).wf(),
            start < 0x20_0000,
        ensures
            final(self).wf(),
            final(self).model() == old(self).model().with_iop_ram(
                ring_put(old(self).mem.iop_ram@, start as int, data@),
            ),
    {
        let ghost m = self.model();
        let n: usize = data.len();
        let mut at: u32 = start;
        assert(data@.subrange(0, 0) =~= Seq::<u8>::empty());
        for i in 0..n
            invariant
                n == data@.len(),
                at < 0x20_0000,
                at == (start + i) % 0x20_0000,
                m.mem.iop_ram.len() == IOP_RAM_SIZE,
                self.wf(),
                self.model() == m.with_iop_ram(ring_put(m.mem.iop_ram, start as int, data@.subrange(0, i as int))),
        {
            self.put_iop_byte(at as usize, data[i]);
            at = (at + 1) % 0x20_0000;
            proof {
                assert(data@.subrange(0, i + 1).drop_last() =~= data@.subrange(0, i as int));
                lemma_ring_len(m.mem.iop_ram, start as int, data@.subrange(0, i as int));
            }
        }
        assert(data@.subrange(0, n as int) =~= data@);
    }

    // --- channels --------------------------------------------------------------------

    fn kick_cdvd(&mut self)
        requires
            old(self).wf(),
        ensures
            final(self).wf(),
            final(self).model() == old(self).model().cdvd_kicked(),
    {
        proof {
            reveal(BusModel::cdvd_kicked);
        }
        if self.cdvd.drive.n_busy || self.cdvd.read_remaining() == 0 {
            self.iop.cdvd_deferred = true;
        } else {
            self.do_cdvd_dma();
        }
    }

    fn write_cdvd_channel(&mut self, r: u32, v: u32)
        requires
            old(self).wf(),
        ensures
            final(self).wf(),
            final(self).model() == old(self).model().cdvd_channel(r as int, v),
    {
        proof {
            reveal(BusModel::cdvd_channel);
        }
        self.iop.cdvd = set_iop_reg(self.iop.cdvd, r, v);
        if r == 8 && v & IOP_CHCR_BUSY != 0 {
            self.kick_cdvd();
        }
    }

    fn write_sio2in_channel(&mut self, r: u32, v: u32)
        requires
            old(self).wf(),
        ensures
            final(self).wf(),
            final(self).model() == old(self).model().sio2in_channel(r as int, v),
    {
        proof {
            reveal(BusModel::sio2in_channel);
        }
        self.iop.sio2in = set_iop_reg(self.iop.sio2in, r, v);
        if r == 8 && v & IOP_CHCR_BUSY != 0 {
            self.do_sio2_in();
        }
    }

    fn kick_sio2out(&mut self)
        requires
            old(self).wf(),
        ensures
            final(self).wf(),
            final(self).model() == old(self).model().sio2out_kicked(),
    {
        proof {
            reveal(BusModel::sio2out_kicked);
        }
        if self.sio2.out_pos >= self.sio2.fifo_out.len() && (self.sio2.pending || self.sio2.fifo_in.len() > 0) {
            self.iop.sio2out_deferred = true;
        } else {
            self.do_sio2_out();
        }
    }

    fn write_sio2out_channel(&mut self, r: u32, v: u32)
        requires
            old(self).wf(),
        ensures
            final(self).wf(),
            final(self).model() == old(self).model().sio2out_channel(r as int, v),
    {
        proof {
            reveal(BusModel::sio2out_channel);
        }
        self.iop.sio2out = set_iop_reg(self.iop.sio2out, r, v);
        if r == 8 && v & IOP_CHCR_BUSY != 0 {
            self.kick_sio2out();
        }
    }

    fn write_sif_channel(&mut self, second: bool, r: u32, v: u32)
        requires
            old(self).wf(),
        ensures
            final(self).wf(),
            final(self).model() == old(self).model().iop_sif_channel(second, r as int, v),
    {
        proof {
            reveal(BusModel::iop_sif_channel);
        }
        let mut c = if second { self.sif.iop1 } else { self.sif.iop0 };
        match r {
            0 => c.madr = v % 0x100_0000,
            4 => c.bcr = v,
            8 => c.chcr = v,
            _ => c.tadr = v % 0x100_0000,
        }
        if second {
            self.sif.iop1 = c;
        } else {
            self.sif.iop0 = c;
        }
        if r == 8 && v & IOP_CHCR_BUSY != 0 {
            self.pump_sif();
        }
    }

    fn kick_spu(&mut self, core: u8, c: IopDmaChannel)
        requires
            old(self).wf(),
        ensures
            final(self).wf(),
            final(self).model() == old(self).model().spu_kicked(core, c),
    {
        proof {
            reveal(BusModel::spu_kicked);
        }
        self.events.push(
            Event::SpuDma {
                core,
                to_spu: c.chcr & 1 != 0,
                start: c.madr % 0x20_0000,
                bytes: iop_bcr_bytes(c.bcr),
            },
        );
        self.ee.timers_due = 0;
    }

    fn write_spu_channel(&mut self, core: u8, addr: u32, n: usize, v: u32)
        requires
            old(self).wf(),
            is_size(n),
            n <= 4,
        ensures
            final(self).wf(),
            final(self).model() == old(self).model().spu_channel(core, addr, n, v),
    {
        proof {
            reveal(BusModel::spu_channel);
        }
        let c = set_spu_reg(if core == 0 { self.iop.spu0 } else { self.iop.spu1 }, addr, n, v);
        if core == 0 {
            self.iop.spu0 = c;
        } else {
            self.iop.spu1 = c;
        }
        if addr % 16 >= 8 && c.chcr & IOP_CHCR_BUSY != 0 {
            self.kick_spu(core, c);
        }
    }

    // --- MMIO ------------------------------------------------------------------------

    fn write_iop_timer(&mut self, t: usize, r: u32, v: u32)
        requires
            old(self).wf(),
            t < 6,
        ensures
            final(self).wf(),
            final(self).model() == old(self).model().timer_written(t as int, r as int, v),
    {
        proof {
            reveal(BusModel::timer_written);
        }
        let ghost start = self.model();
        let mut c = self.iop_timers[t];
        match r {
            0 => {
                c.base = v;
                c.base_cycle = self.ee.now;
            },
            4 => {
                c.mode = v;
                c.base = 0;
                c.base_cycle = self.ee.now;
                c.last_check = self.ee.now;
            },
            8 => c.target = v,
            _ => {},
        }
        self.iop_timers[t] = c;
        self.ee.timers_due = 0;
        assert(self.iop_timers@ =~= start.timer_written(t as int, r as int, v).timers);
    }

    fn write_iop_interrupts(&mut self, addr: u32, v: u32)
        requires
            old(self).wf(),
        ensures
            final(self).wf(),
            final(self).model() == old(self).model().iop_interrupts_written(addr, v),
    {
        proof {
            reveal(BusModel::iop_interrupts_written);
        }
        match addr {
            0x1F80_1070 => self.iop.i_stat = self.iop.i_stat & v,
            0x1F80_1074 => self.iop.i_mask = v,
            0x1F80_1078 => self.iop.i_ctrl = v,
            0x1F80_10F4 => {
                self.iop.dicr = (v & 0x00FF_FFFF) | (self.iop.dicr & !(v & 0x7F00_0000) & 0x7F00_0000);
            },
            _ => {
                self.iop.dicr2 = (v & 0x00FF_FFFF) | (self.iop.dicr2 & !(v & 0x7F00_0000) & 0x7F00_0000);
            },
        }
    }

    fn iop_write_mmio(&mut self, addr: u32, n: usize, v: u32)
        requires
            old(self).wf(),
            is_size(n),
            n <= 4,
            0x1F80_1000 <= addr,
            addr + n <= 0x1F81_0000,
        ensures
            final(self).wf(),
            final(self).model() == old(self).model().iop_mmio_written(addr, n, v),
    {
        proof {
            reveal(BusModel::iop_mmio_written);
        }
        if let Some(t) = iop_timer_index(addr) {
            self.write_iop_timer(t, addr % 16, v);
            return;
        }
        match addr {
            0x1F80_8200..=0x1F80_82FF => {
                if self.sio2.write(addr, v) {
                    self.sio2_completed();
                }
            },
            0x1F80_1070 | 0x1F80_1074 | 0x1F80_1078 | 0x1F80_10F4 | 0x1F80_1574 => self.write_iop_interrupts(addr, v),
            0x1F80_10B0 | 0x1F80_10B4 | 0x1F80_10B8 => self.write_cdvd_channel(addr % 16, v),
            0x1F80_10C0..=0x1F80_10CB => self.write_spu_channel(0, addr, n, v),
            0x1F80_1500..=0x1F80_150B => self.write_spu_channel(1, addr, n, v),
            0x1F80_1520 | 0x1F80_1524 | 0x1F80_1528 | 0x1F80_152C => self.write_sif_channel(false, addr % 16, v),
            0x1F80_1530 | 0x1F80_1534 | 0x1F80_1538 | 0x1F80_153C => self.write_sif_channel(true, addr % 16, v),
            0x1F80_1540 | 0x1F80_1544 | 0x1F80_1548 => self.write_sio2in_channel(addr % 16, v),
            0x1F80_1550 | 0x1F80_1554 | 0x1F80_1558 => self.write_sio2out_channel(addr % 16, v),
            0x1F80_2070 => {},
            _ => write_le(&mut self.iop_mmio, (addr % 0x1_0000) as usize, n, v as u64),
        }
    }

    fn iop_read_timer(&mut self, t: usize, r: u32) -> (v: u32)
        requires
            old(self).wf(),
            t < 6,
        ensures
            final(self).wf(),
            v == (if r == 0 {
                old(self).iop_timers@[t as int].value(t as int, old(self).ee.now, old(self).ee.region.hblank()) as u32
            } else if r == 4 {
                old(self).iop_timers@[t as int].mode
            } else if r == 8 {
                old(self).iop_timers@[t as int].target
            } else {
                0
            }),
            final(self).model() == (if r == 4 {
                let c = old(self).iop_timers@[t as int];
                BusModel {
                    timers: old(self).iop_timers@.update(t as int, IopTimer { mode: c.mode & !0x1800u32, ..c }),
                    ..old(self).model()
                }
            } else {
                old(self).model()
            }),
    {
        let mut c = self.iop_timers[t];
        match r {
            0 => c.count(t, self.ee.now, self.ee.region.iop_hblank_div()),
            4 => {
                // Reading MODE clears the reached-target flags.
                let v: u32 = c.mode;
                c.mode = c.mode & !0x1800u32;
                self.iop_timers[t] = c;
                v
            },
            8 => c.target,
            _ => 0,
        }
    }

    fn iop_read_mmio(&mut self, addr: u32, n: usize) -> (v: u32)
        requires
            old(self).wf(),
            is_size(n),
            n <= 4,
            0x1F80_1000 <= addr,
            addr + n <= 0x1F81_0000,
        ensures
            final(self).wf(),
            v == old(self).model().iop_mmio_value(addr, n),
            final(self).model() == old(self).model().iop_mmio_read(addr),
    {
        if let Some(t) = iop_timer_index(addr) {
            return self.iop_read_timer(t, addr % 16);
        }
        let r: u32 = addr % 16;
        let shadow: u64 = read_le(&self.iop_mmio, (addr % 0x1_0000) as usize, n);
        proof {
            crate::bytes::lemma_le_bound(self.iop_mmio@.subrange(addr as int % 0x1_0000, addr as int % 0x1_0000 + n));
            crate::bytes::lemma_pow256_values();
        }
        match addr {
            0x1F80_8200..=0x1F80_82FF => self.sio2.read(addr),
            0x1F80_1070 => self.iop.i_stat,
            0x1F80_1074 => self.iop.i_mask,
            0x1F80_1078 => {
                // I_CTRL reads clear the master enable bit, as on PS1.
                let v: u32 = self.iop.i_ctrl;
                self.iop.i_ctrl = self.iop.i_ctrl & !1u32;
                v
            },
            0x1F80_10B0 | 0x1F80_10B4 | 0x1F80_10B8 => iop_reg(&self.iop.cdvd, r),
            0x1F80_1520 | 0x1F80_1524 | 0x1F80_1528 | 0x1F80_152C => iop_reg(&self.sif.iop0, r),
            0x1F80_1530 | 0x1F80_1534 | 0x1F80_1538 | 0x1F80_153C => iop_reg(&self.sif.iop1, r),
            0x1F80_1540 | 0x1F80_1544 | 0x1F80_1548 => iop_reg(&self.iop.sio2in, r),
            0x1F80_1550 | 0x1F80_1554 | 0x1F80_1558 => iop_reg(&self.iop.sio2out, r),
            0x1F80_10C0..=0x1F80_10CB => extract_sub_word(iop_reg(&self.iop.spu0, r / 4 * 4), addr, n),
            0x1F80_1500..=0x1F80_150B => extract_sub_word(iop_reg(&self.iop.spu1, r / 4 * 4), addr, n),
            0x1F80_10F4 => self.iop.dicr,
            0x1F80_1574 => self.iop.dicr2,
            0x1F80_1600 => 0x10,
            0x1F80_1608 => (shadow as u32) & !1u32,
            _ => shadow as u32,
        }
    }

    // --- IOP access --------------------------------------------------------------------

    /// Whether a read at this address is answered by a device outside the
    /// bus, whose answer [`Bus::reply`] has to hold.
    pub fn iop_asks_device(&self, vaddr: u32) -> (r: bool)
        ensures
            r == BusModel::iop_device(vaddr),
    {
        let addr: u32 = vaddr % 0x2000_0000;
        vaddr < 0xFFFE_0000 && ((addr >= 0x1D00_0000 && addr <= 0x1D00_00FF) || (addr >= 0x1F90_0000 && addr
            <= 0x1F90_0FFF))
    }

    pub fn iop_read(&mut self, vaddr: u32, n: usize) -> (v: u32)
        requires
            old(self).wf(),
            is_size(n),
            n <= 4,
            BusModel::iop_fits(vaddr, n),
        ensures
            final(self).wf(),
            v == old(self).model().iop_value(vaddr, n),
            final(self).model() == old(self).model().iop_read(vaddr),
    {
        if vaddr >= 0xFFFE_0000 {
            return 0;
        }
        let addr: u32 = vaddr % 0x2000_0000;
        match addr {
            0x0000_0000..=0x007F_FFFF => read_word(&self.mem.iop_ram, (addr % 0x20_0000) as usize, n),
            0x1F80_0000..=0x1F80_03FF => read_word(&self.mem.iop_spad, (addr - 0x1F80_0000) as usize, n),
            0x1F80_1000..=0x1F80_FFFF => self.iop_read_mmio(addr, n),
            0x1D00_0000..=0x1D00_00FF => (self.reply % 0x1_0000_0000) as u32,
            0x1F40_2000..=0x1F40_203F => self.cdvd.read(addr, self.ee.now),
            0x1E00_0000..=0x1E3F_FFFF => u32::MAX,
            0x1F90_0000..=0x1F90_0FFF => (self.reply % 0x1_0000_0000) as u32,
            0x1FC0_0000..=0x1FFF_FFFF => read_word(&self.mem.bios, (addr - 0x1FC0_0000) as usize, n),
            _ => 0,
        }
    }

    fn write_cdvd(&mut self, addr: u32, v: u32)
        requires
            old(self).wf(),
        ensures
            final(self).wf(),
            final(self).model() == old(self).model().cdvd_written(addr as int % 64, (v % 256) as u8),
    {
        proof {
            reveal(BusModel::cdvd_written);
        }
        if let Some((cmd, latency)) = self.cdvd.write(addr, v) {
            self.iop.cdvd_done_at = Some(self.ee.now + latency);
            self.ee.timers_due = 0;
            self.events.push(Event::Cdvd(cmd));
        }
    }

    fn write_iop_sif(&mut self, addr: u32, v: u32)
        requires
            old(self).wf(),
        ensures
            final(self).wf(),
            final(self).model() == old(self).model().iop_sif_written(addr, v),
    {
        self.events.push(Event::Sif { iop: true, addr, v });
        if addr % 256 / 16 == 3 {
            self.raise_intc(2);
        }
    }

    pub fn iop_write(&mut self, vaddr: u32, n: usize, v: u32)
        requires
            old(self).wf(),
            is_size(n),
            n <= 4,
            BusModel::iop_fits(vaddr, n),
        ensures
            final(self).wf(),
            final(self).model() == old(self).model().iop_written(vaddr, n, v),
    {
        if vaddr >= 0xFFFE_0000 {
            return;
        }
        let addr: u32 = vaddr % 0x2000_0000;
        match addr {
            0x0000_0000..=0x007F_FFFF => write_le(&mut self.mem.iop_ram, (addr % 0x20_0000) as usize, n, v as u64),
            0x1F80_0000..=0x1F80_03FF => write_le(&mut self.mem.iop_spad, (addr - 0x1F80_0000) as usize, n, v as u64),
            0x1F80_1000..=0x1F80_FFFF => self.iop_write_mmio(addr, n, v),
            0x1D00_0000..=0x1D00_00FF => self.write_iop_sif(addr, v),
            0x1F40_2000..=0x1F40_203F => self.write_cdvd(addr, v),
            0x1F90_0000..=0x1F90_0FFF => {
                self.events.push(Event::Spu { addr: addr % 0x1000, size: n, v });
                self.ee.timers_due = 0;
            },
            _ => {},
        }
    }

    /// Instruction fetch. Code only ever runs from IOP RAM or the BIOS, so
    /// those two are read directly and everything else defers to the full
    /// [`Bus::iop_read32`] dispatch. The cache control registers at the top
    /// are no code: a fetch there is one from the BIOS, like any other that
    /// ends at its addresses.
    pub fn iop_fetch32(&mut self, vaddr: u32) -> (v: u32)
        requires
            old(self).wf(),
            BusModel::iop_fits((vaddr % 0x2000_0000) as u32, 4),
        ensures
            final(self).wf(),
            v == old(self).model().iop_value((vaddr % 0x2000_0000) as u32, 4),
            final(self).model() == old(self).model().iop_read((vaddr % 0x2000_0000) as u32),
    {
        let addr: u32 = vaddr % 0x2000_0000;
        if addr < 0x0080_0000 {
            read_word(&self.mem.iop_ram, (addr % 0x20_0000) as usize, 4)
        } else if addr >= 0x1FC0_0000 {
            read_word(&self.mem.bios, (addr - 0x1FC0_0000) as usize, 4)
        } else {
            self.iop_read32(vaddr)
        }
    }

    pub fn iop_irq_pending(&self) -> (r: bool)
        ensures
            r == (self.iop.i_ctrl & 1 != 0 && self.iop.i_stat & self.iop.i_mask != 0),
    {
        self.iop.i_ctrl & 1 != 0 && self.iop.i_stat & self.iop.i_mask != 0
    }

    /// The SPU2's interrupt line.
    pub fn raise_spu_irq(&mut self)
        requires
            old(self).wf(),
        ensures
            final(self).wf(),
            final(self).model() == (BusModel {
                iop: IopRegs { i_stat: old(self).iop.i_stat | 0x200, ..old(self).iop },
                ..old(self).model()
            }),
    {
        self.iop.i_stat = self.iop.i_stat | 0x200;
    }

    pub fn iop_read8(&mut self, vaddr: u32) -> (v: u8)
        requires
            old(self).wf(),
            BusModel::iop_fits(vaddr, 1),
        ensures
            final(self).wf(),
            v == old(self).model().iop_value(vaddr, 1) % 256,
            final(self).model() == old(self).model().iop_read(vaddr),
    {
        (self.iop_read(vaddr, 1) % 256) as u8
    }

    pub fn iop_read16(&mut self, vaddr: u32) -> (v: u16)
        requires
            old(self).wf(),
            BusModel::iop_fits(vaddr, 2),
        ensures
            final(self).wf(),
            v == old(self).model().iop_value(vaddr, 2) % 0x1_0000,
            final(self).model() == old(self).model().iop_read(vaddr),
    {
        (self.iop_read(vaddr, 2) % 0x1_0000) as u16
    }

    pub fn iop_read32(&mut self, vaddr: u32) -> (v: u32)
        requires
            old(self).wf(),
            BusModel::iop_fits(vaddr, 4),
        ensures
            final(self).wf(),
            v == old(self).model().iop_value(vaddr, 4),
            final(self).model() == old(self).model().iop_read(vaddr),
    {
        self.iop_read(vaddr, 4)
    }

    pub fn iop_write8(&mut self, vaddr: u32, v: u8)
        requires
            old(self).wf(),
            BusModel::iop_fits(vaddr, 1),
        ensures
            final(self).wf(),
            final(self).model() == old(self).model().iop_written(vaddr, 1, v as u32),
    {
        self.iop_write(vaddr, 1, v as u32)
    }

    pub fn iop_write16(&mut self, vaddr: u32, v: u16)
        requires
            old(self).wf(),
            BusModel::iop_fits(vaddr, 2),
        ensures
            final(self).wf(),
            final(self).model() == old(self).model().iop_written(vaddr, 2, v as u32),
    {
        self.iop_write(vaddr, 2, v as u32)
    }

    pub fn iop_write32(&mut self, vaddr: u32, v: u32)
        requires
            old(self).wf(),
            BusModel::iop_fits(vaddr, 4),
        ensures
            final(self).wf(),
            final(self).model() == old(self).model().iop_written(vaddr, 4, v as u32),
    {
        self.iop_write(vaddr, 4, v as u32)
    }
}

fn iop_reg(c: &IopDmaChannel, r: u32) -> (v: u32)
    ensures
        v == BusModel::iop_reg_get(*c, r as int),
{
    match r {
        0 => c.madr,
        4 => c.bcr,
        8 => c.chcr,
        _ => c.tadr,
    }
}

/// Up to four bytes, little endian.
fn read_word(mem: &Vec<u8>, at: usize, n: usize) -> (v: u32)
    requires
        is_size(n),
        n <= 4,
        at + n <= mem.len(),
    ensures
        v == get(mem@, at as int, n as int),
{
    proof {
        crate::bytes::lemma_le_bound(mem@.subrange(at as int, at + n));
        crate::bytes::lemma_pow256_values();
    }
    read_le(mem, at, n) as u32
}

} // verus!
