//! SIF DMA: the two FIFOs between EE and IOP and the four channels that
//! fill and drain them.

use std::collections::VecDeque;
use vstd::prelude::*;
use crate::bytes::{get, put, rd32, wr32};
use super::dma::{tag_id, tag_qwc, EeDmaChannel, EE_CHCR_STR, EE_CHCR_TIE, EE_CHCR_TTE};
use super::memory::{MemModel, Memory, Quad};

verus! {

pub const IOP_CHCR_BUSY: u32 = 0x100_0000;

/// More steps than a channel can take before it waits or ends: each either
/// moves a word through the queues or reads a tag, and only a chain that
/// never ends, on which the machine would hang, reads this many.
pub const STEP_LIMIT: u64 = 0x1000_0000_0000_0000;

/// Rounds over the four channels at most.
pub const ROUND_LIMIT: u32 = 4096;

/// IOP DMA channel (SIF0 = ch9, SIF1 = ch10).
#[derive(Clone, Copy, PartialEq, Eq, Structural)]
pub struct IopDmaChannel {
    pub madr: u32,
    pub bcr: u32,
    pub chcr: u32,
    pub tadr: u32,
    /// Words remaining in the current block (SIF0 send side).
    pub words_left: u32,
    /// Current tag asked to end the transfer after its block.
    pub tag_end: bool,
    /// SIF1 receive side: words remaining for the current IOP tag.
    pub recv_left: u32,
    pub recv_addr: u32,
    /// Destination address the current packet started at.
    pub recv_start: u32,
    pub recv_end: bool,
    /// Padding words to the packet's qword boundary, dropped after the data.
    pub recv_pad: u32,
}

impl IopDmaChannel {
    pub open spec fn idle() -> IopDmaChannel {
        IopDmaChannel {
            madr: 0,
            bcr: 0,
            chcr: 0,
            tadr: 0,
            words_left: 0,
            tag_end: false,
            recv_left: 0,
            recv_addr: 0,
            recv_start: 0,
            recv_end: false,
            recv_pad: 0,
        }
    }

    pub open spec fn busy(self) -> bool {
        self.chcr & IOP_CHCR_BUSY != 0
    }

    pub open spec fn stopped(self) -> IopDmaChannel {
        IopDmaChannel { chcr: self.chcr & !IOP_CHCR_BUSY, ..self }
    }

    pub fn new() -> (c: Self)
        ensures
            c == IopDmaChannel::idle(),
    {
        IopDmaChannel {
            madr: 0,
            bcr: 0,
            chcr: 0,
            tadr: 0,
            words_left: 0,
            tag_end: false,
            recv_left: 0,
            recv_addr: 0,
            recv_start: 0,
            recv_end: false,
            recv_pad: 0,
        }
    }
}

/// What the rest of the machine has to hear.
#[derive(Clone, Copy, PartialEq, Eq, Structural)]
pub enum SifEvent {
    /// The EE's DMAC channel of SIF0 (ch5) or SIF1 (ch6) completed.
    Ee0,
    Ee1,
    /// The IOP's DMA channel of SIF0 (ch9) or SIF1 (ch10) completed.
    Iop0,
    Iop1,
    /// An sceSifIopReset command passed: the IOP is about to reboot.
    Reset,
}

/// The link over sequences.
pub struct Link {
    pub mem: MemModel,
    pub fifo0: Seq<u32>,
    pub fifo1: Seq<u32>,
    pub ee0: EeDmaChannel,
    pub ee1: EeDmaChannel,
    pub iop0: IopDmaChannel,
    pub iop1: IopDmaChannel,
    pub events: Seq<SifEvent>,
}

/// Word offset in IOP RAM.
pub open spec fn iop_word(addr: int) -> int {
    addr % 0x20_0000 / 4 * 4
}

/// The sceSifIopReset command.
pub const CID_RESET: u32 = 0x8000_0003;

impl Link {
    /// EE SIF1 (ch6), one step: a quadword of a source chain from EE memory
    /// into fifo1, or the next tag; TTE sends the tag's upper half (the
    /// IOP-side tag) ahead of the data. call and ret end the chain.
    pub open spec fn sif1_ee(self) -> Option<Link> {
        let c = self.ee1;
        if !c.running() {
            None
        } else if c.qwc > 0 {
            let q = self.mem.dma_quad(c.madr);
            let m = c.moved();
            let ends = m.qwc == 0 && c.tag_end;
            Some(
                Link {
                    fifo1: self.fifo1 + seq![q.w0, q.w1, q.w2, q.w3],
                    ee1: if ends {
                        m.stopped()
                    } else {
                        m
                    },
                    events: if ends {
                        self.events.push(SifEvent::Ee1)
                    } else {
                        self.events
                    },
                    ..self
                },
            )
        } else {
            let t = self.mem.dma_quad(c.tadr);
            let b = sif1_begun(c, t);
            let ends = b.qwc == 0 && b.tag_end;
            Some(
                Link {
                    fifo1: if c.chcr & EE_CHCR_TTE != 0 {
                        self.fifo1 + seq![t.w2, t.w3]
                    } else {
                        self.fifo1
                    },
                    ee1: if ends {
                        b.stopped()
                    } else {
                        b
                    },
                    events: if ends {
                        self.events.push(SifEvent::Ee1)
                    } else {
                        self.events
                    },
                    ..self
                },
            )
        }
    }

    /// IOP SIF1 (ch10), one step: fifo1 into IOP RAM, guided by embedded
    /// tags. A tag occupies a full quadword of the stream, {addr|flags, word
    /// count, pad, pad}; the data follows, itself padded up to a qword
    /// boundary. Without enough words the channel waits.
    pub open spec fn sif1_iop(self) -> Option<Link> {
        let c = self.iop1;
        let f = self.fifo1;
        if !c.busy() {
            None
        } else if c.recv_left > 0 {
            if f.len() == 0 {
                None
            } else {
                Some(
                    Link {
                        mem: MemModel {
                            iop_ram: put(self.mem.iop_ram, iop_word(c.recv_addr as int), 4, f[0] as nat),
                            ..self.mem
                        },
                        fifo1: f.subrange(1, f.len() as int),
                        iop1: IopDmaChannel {
                            recv_addr: c.recv_addr.wrapping_add(4),
                            recv_left: (c.recv_left - 1) as u32,
                            ..c
                        },
                        ..self
                    },
                )
            }
        } else if c.recv_pad > 0 {
            if f.len() == 0 {
                None
            } else {
                Some(
                    Link {
                        fifo1: f.subrange(1, f.len() as int),
                        iop1: IopDmaChannel { recv_pad: (c.recv_pad - 1) as u32, ..c },
                        ..self
                    },
                )
            }
        } else if c.recv_end {
            Some(self.packet_done())
        } else if f.len() < 4 {
            None
        } else {
            Some(
                Link {
                    fifo1: f.subrange(4, f.len() as int),
                    iop1: IopDmaChannel {
                        recv_addr: (f[0] % 0x100_0000) as u32,
                        recv_start: (f[0] % 0x100_0000) as u32,
                        recv_left: f[1],
                        recv_pad: ((4 - f[1] % 4) % 4) as u32,
                        recv_end: f[0] >= 0x4000_0000,
                        ..c
                    },
                    ..self
                },
            )
        }
    }

    /// A packet's last word has arrived. A reset command drops in-flight
    /// SIF state so the new kernel starts with clean FIFOs.
    pub open spec fn packet_done(self) -> Link {
        let c = IopDmaChannel { recv_end: false, ..self.iop1.stopped() };
        let cid = get(self.mem.iop_ram, iop_word(c.recv_start + 8), 4);
        if cid == CID_RESET {
            Link {
                fifo0: Seq::empty(),
                fifo1: Seq::empty(),
                iop0: IopDmaChannel::idle(),
                iop1: IopDmaChannel { chcr: c.chcr, ..IopDmaChannel::idle() },
                events: self.events.push(SifEvent::Iop1).push(SifEvent::Reset),
                ..self
            }
        } else {
            Link { iop1: c, events: self.events.push(SifEvent::Iop1), ..self }
        }
    }

    /// IOP SIF0 (ch9), one step: IOP RAM into fifo0, guided by tags at TADR.
    /// A 16-byte send block is {data addr | flags, word count, EE tag lo, EE
    /// tag hi}; the EE-side destination tag rides ahead of the data as its
    /// own quadword.
    pub open spec fn sif0_iop(self) -> Option<Link> {
        let c = self.iop0;
        let ram = self.mem.iop_ram;
        if !c.busy() {
            None
        } else if c.words_left > 0 {
            let ends = c.words_left == 1 && c.tag_end;
            let m = IopDmaChannel { madr: c.madr.wrapping_add(4), words_left: (c.words_left - 1) as u32, ..c };
            Some(
                Link {
                    fifo0: self.fifo0.push(get(ram, iop_word(c.madr as int), 4) as u32),
                    iop0: if ends {
                        IopDmaChannel { tag_end: false, ..m.stopped() }
                    } else {
                        m
                    },
                    events: if ends {
                        self.events.push(SifEvent::Iop0)
                    } else {
                        self.events
                    },
                    ..self
                },
            )
        } else {
            let w = |k: int| get(ram, iop_word(iop_word(c.tadr as int) + 4 * k), 4) as u32;
            let n = ((w(1) % 0x100_0000 + 3) / 4 * 4) as u32;
            let end = w(0) >= 0x4000_0000;
            let b = IopDmaChannel {
                madr: (w(0) % 0x100_0000) as u32,
                words_left: n,
                tag_end: end,
                tadr: c.tadr.wrapping_add(16),
                ..c
            };
            let ends = n == 0 && end;
            Some(
                Link {
                    fifo0: self.fifo0 + seq![w(2), w(3), 0, 0],
                    iop0: if ends {
                        IopDmaChannel { tag_end: false, ..b.stopped() }
                    } else {
                        b
                    },
                    events: if ends {
                        self.events.push(SifEvent::Iop0)
                    } else {
                        self.events
                    },
                    ..self
                },
            )
        }
    }

    /// EE SIF0 (ch5), one step: fifo0 into EE RAM as a destination chain.
    pub open spec fn sif0_ee(self) -> Option<Link> {
        let c = self.ee0;
        let f = self.fifo0;
        if !c.running() {
            None
        } else if c.qwc == 0 && c.tag_end {
            Some(Link { ee0: c.stopped(), events: self.events.push(SifEvent::Ee0), ..self })
        } else if f.len() < 4 {
            None
        } else if c.qwc > 0 {
            let q = Quad { w0: f[0], w1: f[1], w2: f[2], w3: f[3] };
            Some(
                Link {
                    mem: self.mem.dma_put((c.madr % 0x2000_0000) as u32, q),
                    fifo0: f.subrange(4, f.len() as int),
                    ee0: c.moved(),
                    ..self
                },
            )
        } else {
            Some(
                Link {
                    fifo0: f.subrange(4, f.len() as int),
                    ee0: EeDmaChannel {
                        qwc: (f[0] % 0x1_0000) as u32,
                        madr: (f[1] % 0x2000_0000 / 16 * 16) as u32,
                        tag_end: f[0] as int / 0x1000_0000 % 8 == 7 || (f[0] >= 0x8000_0000 && c.chcr & EE_CHCR_TIE != 0),
                        ..c
                    },
                    ..self
                },
            )
        }
    }

    /// One step of engine `k`, in the order they are served.
    #[verifier::opaque]
    pub open spec fn step(self, k: int) -> Option<Link> {
        if k == 0 {
            self.sif1_ee()
        } else if k == 1 {
            self.sif1_iop()
        } else if k == 2 {
            self.sif0_iop()
        } else {
            self.sif0_ee()
        }
    }

    /// Engine `k` until it waits, or for `n` steps.
    #[verifier::opaque]
    pub open spec fn ran(self, k: int, n: int) -> Link
        decreases n,
    {
        if n <= 0 {
            self
        } else {
            match self.step(k) {
                None => self,
                Some(s) => s.ran(k, n - 1),
            }
        }
    }

    /// Every engine once.
    pub open spec fn round(self) -> Link {
        let n = STEP_LIMIT as int;
        self.ran(0, n).ran(1, n).ran(2, n).ran(3, n)
    }

    /// Whether a round moves anything.
    pub open spec fn moves(self) -> bool {
        let n = STEP_LIMIT as int;
        ||| self.step(0) is Some
        ||| self.ran(0, n).step(1) is Some
        ||| self.ran(0, n).ran(1, n).step(2) is Some
        ||| self.ran(0, n).ran(1, n).ran(2, n).step(3) is Some
    }

    /// Rounds until nothing moves, or `n` of them.
    pub open spec fn pumped(self, n: int) -> Link
        decreases n,
    {
        if n <= 0 || !self.moves() {
            self
        } else {
            self.round().pumped(n - 1)
        }
    }
}

/// SIF1's source-chain tag: like any, but call and ret are not known and end
/// the chain.
pub open spec fn sif1_begun(c: EeDmaChannel, t: Quad) -> EeDmaChannel {
    let id = tag_id(t);
    if id == 5 || id == 6 {
        EeDmaChannel { tag_end: true, qwc: tag_qwc(t), ..c }
    } else {
        c.begun(t, true)
    }
}

/// A round that moves nothing changes nothing.
pub proof fn law_quiet_rounds_change_nothing(l: Link)
    requires
        !l.moves(),
    ensures
        l.round() == l,
{
    let n = STEP_LIMIT as int;
    reveal(Link::ran);
    assert(l.ran(0, n) == l);
    assert(l.ran(1, n) == l);
    assert(l.ran(2, n) == l);
    assert(l.ran(3, n) == l);
}

pub struct SifLink {
    pub fifo0: VecDeque<u32>,
    pub fifo1: VecDeque<u32>,
    /// EE DMAC SIF0 (ch5) and SIF1 (ch6).
    pub ee0: EeDmaChannel,
    pub ee1: EeDmaChannel,
    /// IOP DMA SIF0 (ch9) and SIF1 (ch10).
    pub iop0: IopDmaChannel,
    pub iop1: IopDmaChannel,
    /// What the rest of the machine has to hear, in order.
    pub events: Vec<SifEvent>,
}

fn front(f: &mut VecDeque<u32>) -> (w: u32)
    requires
        old(f)@.len() > 0,
    ensures
        w == old(f)@[0],
        final(f)@ == old(f)@.subrange(1, old(f)@.len() as int),
{
    match f.pop_front() {
        Some(w) => w,
        None => 0,
    }
}

fn front4(f: &mut VecDeque<u32>) -> (q: Quad)
    requires
        old(f)@.len() >= 4,
    ensures
        q == (Quad { w0: old(f)@[0], w1: old(f)@[1], w2: old(f)@[2], w3: old(f)@[3] }),
        final(f)@ == old(f)@.subrange(4, old(f)@.len() as int),
{
    let w0: u32 = front(f);
    let w1: u32 = front(f);
    let w2: u32 = front(f);
    let w3: u32 = front(f);
    assert(f@ =~= old(f)@.subrange(4, old(f)@.len() as int));
    Quad { w0, w1, w2, w3 }
}

fn iop_read_word(mem: &Memory, addr: u32) -> (w: u32)
    requires
        mem.wf(),
    ensures
        w == get(mem.iop_ram@, iop_word(addr as int), 4),
{
    rd32(mem.iop_ram.as_slice(), (addr % 0x20_0000 / 4 * 4) as usize)
}

impl SifLink {
    pub open spec fn link(&self, mem: Memory) -> Link {
        Link {
            mem: mem.model(),
            fifo0: self.fifo0@,
            fifo1: self.fifo1@,
            ee0: self.ee0,
            ee1: self.ee1,
            iop0: self.iop0,
            iop1: self.iop1,
            events: self.events@,
        }
    }

    pub open spec fn wf(&self) -> bool {
        self.ee0.wf() && self.ee1.wf()
    }

    pub fn new() -> (s: Self)
        ensures
            s.wf(),
            s.fifo0@.len() == 0,
            s.fifo1@.len() == 0,
            s.ee0 == EeDmaChannel::idle(),
            s.ee1 == EeDmaChannel::idle(),
            s.iop0 == IopDmaChannel::idle(),
            s.iop1 == IopDmaChannel::idle(),
            s.events@.len() == 0,
    {
        SifLink {
            fifo0: VecDeque::new(),
            fifo1: VecDeque::new(),
            ee0: EeDmaChannel::new(),
            ee1: EeDmaChannel::new(),
            iop0: IopDmaChannel::new(),
            iop1: IopDmaChannel::new(),
            events: Vec::new(),
        }
    }

    fn step_sif1_ee(&mut self, mem: &Memory) -> (moved: bool)
        requires
            old(self).wf(),
            mem.wf(),
        ensures
            final(self).wf(),
            match old(self).link(*mem).sif1_ee() {
                Some(l) => moved && final(self).link(*mem) == l,
                None => !moved && final(self).link(*mem) == old(self).link(*mem),
            },
    {
        if self.ee1.chcr & EE_CHCR_STR == 0 {
            return false;
        }
        let ghost f = self.fifo1@;
        if self.ee1.qwc > 0 {
            let q = mem.ee_dma_read128(self.ee1.madr);
            self.fifo1.push_back(q.w0);
            self.fifo1.push_back(q.w1);
            self.fifo1.push_back(q.w2);
            self.fifo1.push_back(q.w3);
            assert(self.fifo1@ =~= f + seq![q.w0, q.w1, q.w2, q.w3]);
            self.ee1.madr = self.ee1.madr.wrapping_add(16);
            self.ee1.qwc = self.ee1.qwc - 1;
        } else {
            let t = mem.ee_dma_read128(self.ee1.tadr);
            if self.ee1.chcr & EE_CHCR_TTE != 0 {
                self.fifo1.push_back(t.w2);
                self.fifo1.push_back(t.w3);
                assert(self.fifo1@ =~= f + seq![t.w2, t.w3]);
            }
            let id: u32 = t.w0 / 0x1000_0000 % 8;
            if id == 5 || id == 6 {
                self.ee1.tag_end = true;
                self.ee1.qwc = t.w0 % 0x1_0000;
            } else {
                self.ee1.begin(t, true);
            }
        }
        if self.ee1.qwc == 0 && self.ee1.tag_end {
            self.ee1.chcr = self.ee1.chcr & !EE_CHCR_STR;
            self.ee1.tag_end = false;
            self.events.push(SifEvent::Ee1);
        }
        true
    }

    fn step_sif1_iop(&mut self, mem: &mut Memory) -> (moved: bool)
        requires
            old(self).wf(),
            old(mem).wf(),
        ensures
            final(self).wf(),
            final(mem).wf(),
            match old(self).link(*old(mem)).sif1_iop() {
                Some(l) => moved && final(self).link(*final(mem)) == l,
                None => !moved && final(self).link(*final(mem)) == old(self).link(*old(mem)),
            },
    {
        if self.iop1.chcr & IOP_CHCR_BUSY == 0 {
            return false;
        }
        if self.iop1.recv_left > 0 {
            if self.fifo1.len() == 0 {
                return false;
            }
            let w: u32 = front(&mut self.fifo1);
            wr32(&mut mem.iop_ram, (self.iop1.recv_addr % 0x20_0000 / 4 * 4) as usize, w);
            self.iop1.recv_addr = self.iop1.recv_addr.wrapping_add(4);
            self.iop1.recv_left = self.iop1.recv_left - 1;
            true
        } else if self.iop1.recv_pad > 0 {
            if self.fifo1.len() == 0 {
                return false;
            }
            let _w: u32 = front(&mut self.fifo1);
            self.iop1.recv_pad = self.iop1.recv_pad - 1;
            true
        } else if self.iop1.recv_end {
            self.iop1.recv_end = false;
            self.iop1.chcr = self.iop1.chcr & !IOP_CHCR_BUSY;
            self.events.push(SifEvent::Iop1);
            let at: u32 = self.iop1.recv_start % 0x20_0000 + 8;
            let cid: u32 = iop_read_word(mem, at);
            assert(iop_word(at as int) == iop_word(self.iop1.recv_start + 8));
            if cid == CID_RESET {
                let chcr: u32 = self.iop1.chcr;
                self.fifo0 = VecDeque::new();
                self.fifo1 = VecDeque::new();
                self.iop0 = IopDmaChannel::new();
                self.iop1 = IopDmaChannel::new();
                self.iop1.chcr = chcr;
                self.events.push(SifEvent::Reset);
                assert(self.fifo0@ =~= Seq::<u32>::empty());
                assert(self.fifo1@ =~= Seq::<u32>::empty());
            }
            true
        } else if self.fifo1.len() < 4 {
            false
        } else {
            let t = front4(&mut self.fifo1);
            self.iop1.recv_addr = t.w0 % 0x100_0000;
            self.iop1.recv_start = t.w0 % 0x100_0000;
            self.iop1.recv_left = t.w1;
            self.iop1.recv_pad = (4 - t.w1 % 4) % 4;
            self.iop1.recv_end = t.w0 >= 0x4000_0000;
            true
        }
    }

    fn step_sif0_iop(&mut self, mem: &Memory) -> (moved: bool)
        requires
            old(self).wf(),
            mem.wf(),
        ensures
            final(self).wf(),
            match old(self).link(*mem).sif0_iop() {
                Some(l) => moved && final(self).link(*mem) == l,
                None => !moved && final(self).link(*mem) == old(self).link(*mem),
            },
    {
        if self.iop0.chcr & IOP_CHCR_BUSY == 0 {
            return false;
        }
        let ghost f = self.fifo0@;
        if self.iop0.words_left > 0 {
            let w: u32 = iop_read_word(mem, self.iop0.madr);
            self.fifo0.push_back(w);
            self.iop0.madr = self.iop0.madr.wrapping_add(4);
            self.iop0.words_left = self.iop0.words_left - 1;
        } else {
            let t: u32 = self.iop0.tadr % 0x20_0000 / 4 * 4;
            let w0: u32 = iop_read_word(mem, t);
            let w1: u32 = iop_read_word(mem, t + 4);
            let w2: u32 = iop_read_word(mem, t + 8);
            let w3: u32 = iop_read_word(mem, t + 12);
            self.iop0.madr = w0 % 0x100_0000;
            self.iop0.words_left = (w1 % 0x100_0000 + 3) / 4 * 4;
            self.iop0.tag_end = w0 >= 0x4000_0000;
            self.iop0.tadr = self.iop0.tadr.wrapping_add(16);
            self.fifo0.push_back(w2);
            self.fifo0.push_back(w3);
            self.fifo0.push_back(0);
            self.fifo0.push_back(0);
            assert(self.fifo0@ =~= f + seq![w2, w3, 0, 0]);
        }
        if self.iop0.words_left == 0 && self.iop0.tag_end {
            self.iop0.tag_end = false;
            self.iop0.chcr = self.iop0.chcr & !IOP_CHCR_BUSY;
            self.events.push(SifEvent::Iop0);
        }
        true
    }

    fn step_sif0_ee(&mut self, mem: &mut Memory) -> (moved: bool)
        requires
            old(self).wf(),
            old(mem).wf(),
        ensures
            final(self).wf(),
            final(mem).wf(),
            match old(self).link(*old(mem)).sif0_ee() {
                Some(l) => moved && final(self).link(*final(mem)) == l,
                None => !moved && final(self).link(*final(mem)) == old(self).link(*old(mem)),
            },
    {
        if self.ee0.chcr & EE_CHCR_STR == 0 {
            return false;
        }
        if self.ee0.qwc == 0 && self.ee0.tag_end {
            self.ee0.tag_end = false;
            self.ee0.chcr = self.ee0.chcr & !EE_CHCR_STR;
            self.events.push(SifEvent::Ee0);
            return true;
        }
        if self.fifo0.len() < 4 {
            return false;
        }
        let q = front4(&mut self.fifo0);
        if self.ee0.qwc > 0 {
            mem.ee_dma_write128(self.ee0.madr % 0x2000_0000, q);
            self.ee0.madr = self.ee0.madr.wrapping_add(16);
            self.ee0.qwc = self.ee0.qwc - 1;
        } else {
            self.ee0.qwc = q.w0 % 0x1_0000;
            self.ee0.madr = q.w1 % 0x2000_0000 / 16 * 16;
            self.ee0.tag_end = q.w0 / 0x1000_0000 % 8 == 7 || (q.w0 >= 0x8000_0000 && self.ee0.chcr & EE_CHCR_TIE != 0);
        }
        true
    }

    fn run_engine(&mut self, mem: &mut Memory, k: u8) -> (moved: bool)
        requires
            old(self).wf(),
            old(mem).wf(),
            k < 4,
        ensures
            final(self).wf(),
            final(mem).wf(),
            final(self).link(*final(mem)) == old(self).link(*old(mem)).ran(k as int, STEP_LIMIT as int),
            moved == (old(self).link(*old(mem)).step(k as int) is Some),
    {
        let ghost start = self.link(*mem);
        let mut n: u64 = 0;
        let mut waiting = false;
        proof {
            reveal(Link::ran);
        }
        while n < STEP_LIMIT && !waiting
            invariant
                n <= STEP_LIMIT,
                self.wf(),
                mem.wf(),
                k < 4,
                waiting ==> self.link(*mem).step(k as int) is None,
                start.ran(k as int, STEP_LIMIT as int) == self.link(*mem).ran(k as int, STEP_LIMIT - n),
                n == 0 ==> self.link(*mem) == start,
                n > 0 ==> start.step(k as int) is Some,
            decreases
                if waiting {
                    0int
                } else {
                    STEP_LIMIT - n + 1
                },
        {
            proof {
                reveal(Link::ran);
                reveal(Link::step);
            }
            let moved = match k {
                0 => self.step_sif1_ee(mem),
                1 => self.step_sif1_iop(mem),
                2 => self.step_sif0_iop(mem),
                _ => self.step_sif0_ee(mem),
            };
            if moved {
                n = n + 1;
            } else {
                waiting = true;
            }
        }
        n > 0
    }

    fn run_round(&mut self, mem: &mut Memory) -> (moved: bool)
        requires
            old(self).wf(),
            old(mem).wf(),
        ensures
            final(self).wf(),
            final(mem).wf(),
            final(self).link(*final(mem)) == old(self).link(*old(mem)).round(),
            moved == old(self).link(*old(mem)).moves(),
    {
        let a = self.run_engine(mem, 0);
        let b = self.run_engine(mem, 1);
        let c = self.run_engine(mem, 2);
        let d = self.run_engine(mem, 3);
        a || b || c || d
    }

    /// Move as much SIF traffic as the armed channels allow.
    pub fn pump_sif(&mut self, mem: &mut Memory)
        requires
            old(self).wf(),
            old(mem).wf(),
        ensures
            final(self).wf(),
            final(mem).wf(),
            final(self).link(*final(mem)) == old(self).link(*old(mem)).pumped(ROUND_LIMIT as int),
    {
        let ghost start = self.link(*mem);
        let mut n: u32 = 0;
        let mut quiet = false;
        while n < ROUND_LIMIT && !quiet
            invariant
                n <= ROUND_LIMIT,
                self.wf(),
                mem.wf(),
                quiet ==> start.pumped(ROUND_LIMIT as int) == self.link(*mem),
                !quiet ==> start.pumped(ROUND_LIMIT as int) == self.link(*mem).pumped(ROUND_LIMIT - n),
            decreases
                if quiet {
                    0int
                } else {
                    ROUND_LIMIT - n + 1
                },
        {
            let ghost before = self.link(*mem);
            if self.run_round(mem) {
                n = n + 1;
            } else {
                proof {
                    law_quiet_rounds_change_nothing(before);
                }
                quiet = true;
            }
        }
    }
}

} // verus!
