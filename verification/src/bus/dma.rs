//! EE DMAC channels: block transfers and tag chains.

use vstd::prelude::*;
use super::memory::{quad_at, spr, MemModel, Memory, Quad};

verus! {

pub const EE_CHCR_STR: u32 = 0x100;

pub const EE_CHCR_TTE: u32 = 0x40;

pub const EE_CHCR_TIE: u32 = 0x80;

/// Steps that one transfer takes at most, against chains that never end.
pub const STEP_LIMIT: u32 = 1_000_000;

/// EE DMAC channel.
#[derive(Clone, Copy, PartialEq, Eq, Structural)]
pub struct EeDmaChannel {
    pub chcr: u32,
    pub madr: u32,
    pub qwc: u32,
    pub tadr: u32,
    /// Current tag asked to stop the chain after its data.
    pub tag_end: bool,
    /// Return addresses pushed by `call` tags, popped by `ret`. Two deep,
    /// the same as the DMAC's ASR0/ASR1.
    pub asr0: u32,
    pub asr1: u32,
    pub asr_depth: u8,
    /// Scratchpad-side address, the SPR channels only. 14 bits.
    pub sadr: u32,
}

/// What a chain tag says.
pub open spec fn tag_qwc(t: Quad) -> u32 {
    (t.w0 % 0x1_0000) as u32
}

pub open spec fn tag_id(t: Quad) -> int {
    t.w0 as int / 0x1000_0000 % 8
}

pub open spec fn tag_irq(t: Quad) -> bool {
    t.w0 >= 0x8000_0000
}

/// The address keeps bit 31: it selects the scratchpad as the source.
pub open spec fn tag_addr(t: Quad) -> u32 {
    (t.w1 / 16 * 16) as u32
}

impl EeDmaChannel {
    pub open spec fn idle() -> EeDmaChannel {
        EeDmaChannel {
            chcr: 0,
            madr: 0,
            qwc: 0,
            tadr: 0,
            tag_end: false,
            asr0: 0,
            asr1: 0,
            asr_depth: 0,
            sadr: 0,
        }
    }

    pub open spec fn wf(self) -> bool {
        self.asr_depth <= 2 && self.qwc <= 0xFFFF && self.sadr < 0x4000
    }

    pub open spec fn running(self) -> bool {
        self.chcr & EE_CHCR_STR != 0
    }

    /// Chain mode.
    pub open spec fn chained(self) -> bool {
        self.chcr as int / 4 % 4 == 1
    }

    /// A finished transfer.
    pub open spec fn stopped(self) -> EeDmaChannel {
        EeDmaChannel { chcr: self.chcr & !EE_CHCR_STR, tag_end: false, ..self }
    }

    /// The quadword after the one moved.
    pub open spec fn moved(self) -> EeDmaChannel {
        EeDmaChannel { madr: self.madr.wrapping_add(16), qwc: (self.qwc - 1) as u32, ..self }
    }

    /// The channel with a source-chain tag's addresses set up.
    pub open spec fn tagged(self, t: Quad) -> EeDmaChannel {
        let id = tag_id(t);
        let next = self.tadr.wrapping_add(16);
        let after = next.wrapping_add((tag_qwc(t) * 16) as u32);
        if id == 0 {
            // refe: data at ADDR, end after this block.
            EeDmaChannel { madr: tag_addr(t), tadr: next, tag_end: true, ..self }
        } else if id == 1 {
            // cnt: data follows the tag.
            EeDmaChannel { madr: next, tadr: after, ..self }
        } else if id == 2 {
            // next: data follows, next tag at ADDR.
            EeDmaChannel { madr: next, tadr: tag_addr(t), ..self }
        } else if id == 3 || id == 4 {
            // ref/refs: data at ADDR, tags are sequential.
            EeDmaChannel { madr: tag_addr(t), tadr: next, ..self }
        } else if id == 5 {
            // call: data follows, then the chain at ADDR, remembering where
            // to come back to.
            let called = EeDmaChannel { madr: next, tadr: tag_addr(t), ..self };
            if self.asr_depth == 0 {
                EeDmaChannel { asr0: after, asr_depth: 1, ..called }
            } else if self.asr_depth == 1 {
                EeDmaChannel { asr1: after, asr_depth: 2, ..called }
            } else {
                called
            }
        } else if id == 6 {
            // ret: data follows, then back to where the last call was.
            if self.asr_depth == 2 {
                EeDmaChannel { madr: next, tadr: self.asr1, asr_depth: 1, ..self }
            } else if self.asr_depth == 1 {
                EeDmaChannel { madr: next, tadr: self.asr0, asr_depth: 0, ..self }
            } else {
                EeDmaChannel { madr: next, tag_end: true, ..self }
            }
        } else {
            // end: data follows, then stop.
            EeDmaChannel { madr: next, tag_end: true, ..self }
        }
    }

    /// The channel with the block of a source-chain tag set up. On the
    /// channels that watch for it (`tie`) a tag's interrupt bit ends the
    /// chain where TIE asks for it.
    pub open spec fn begun(self, t: Quad, tie: bool) -> EeDmaChannel {
        let c = self.tagged(t);
        EeDmaChannel { qwc: tag_qwc(t), tag_end: c.tag_end || (tie && tag_irq(t) && self.chcr & EE_CHCR_TIE != 0), ..c }
    }

    pub fn new() -> (c: Self)
        ensures
            c == EeDmaChannel::idle(),
            c.wf(),
    {
        EeDmaChannel { chcr: 0, madr: 0, qwc: 0, tadr: 0, tag_end: false, asr0: 0, asr1: 0, asr_depth: 0, sadr: 0 }
    }

    fn set_tag(&mut self, t: Quad)
        requires
            old(self).wf(),
        ensures
            *final(self) == old(self).tagged(t),
            final(self).wf(),
    {
        let id: u32 = t.w0 / 0x1000_0000 % 8;
        let addr: u32 = t.w1 / 16 * 16;
        let next: u32 = self.tadr.wrapping_add(16);
        let after: u32 = next.wrapping_add(t.w0 % 0x1_0000 * 16);
        match id {
            0 => {
                self.madr = addr;
                self.tadr = next;
                self.tag_end = true;
            },
            1 => {
                self.madr = next;
                self.tadr = after;
            },
            2 => {
                self.madr = next;
                self.tadr = addr;
            },
            3 | 4 => {
                self.madr = addr;
                self.tadr = next;
            },
            5 => {
                self.madr = next;
                if self.asr_depth == 0 {
                    self.asr0 = after;
                    self.asr_depth = 1;
                } else if self.asr_depth == 1 {
                    self.asr1 = after;
                    self.asr_depth = 2;
                }
                self.tadr = addr;
            },
            6 => {
                self.madr = next;
                if self.asr_depth == 2 {
                    self.asr_depth = 1;
                    self.tadr = self.asr1;
                } else if self.asr_depth == 1 {
                    self.asr_depth = 0;
                    self.tadr = self.asr0;
                } else {
                    self.tag_end = true;
                }
            },
            _ => {
                self.madr = next;
                self.tag_end = true;
            },
        }
    }

    pub fn begin(&mut self, t: Quad, tie: bool)
        requires
            old(self).wf(),
        ensures
            *final(self) == old(self).begun(t, tie),
            final(self).wf(),
    {
        let watched = tie && self.chcr & EE_CHCR_TIE != 0;
        self.set_tag(t);
        if t.w0 >= 0x8000_0000 && watched {
            self.tag_end = true;
        }
        self.qwc = t.w0 % 0x1_0000;
    }
}

/// A call returns to the tag after its data, with the stack as it was.
pub proof fn law_ret_undoes_call(c: EeDmaChannel, call: Quad, ret: Quad)
    requires
        c.asr_depth < 2,
        tag_id(call) == 5,
        tag_id(ret) == 6,
    ensures
        ({
            let back = c.tagged(call).tagged(ret);
            &&& back.asr_depth == c.asr_depth
            &&& back.tadr == c.tadr.wrapping_add(16).wrapping_add((tag_qwc(call) * 16) as u32)
            &&& back.tag_end == c.tag_end
        }),
{
}

// --- channels that read memory --------------------------------------------------

/// What a channel hands to its device.
#[derive(Clone, Copy, PartialEq, Eq, Structural)]
pub enum Packet {
    /// A quadword of data.
    Data(Quad),
    /// The upper half of a tag, where TTE transfers it.
    Tag(u32, u32),
}

/// A transfer under way: the channel, what has been delivered, and whether
/// the completion interrupt is due.
pub struct Stream {
    pub ch: EeDmaChannel,
    pub out: Seq<Packet>,
    pub done: bool,
}

/// One step: a quadword of the block, or the end, or the next tag.
pub open spec fn streamed(m: MemModel, s: Stream, tie: bool) -> Stream {
    let c = s.ch;
    if c.qwc > 0 {
        Stream { ch: c.moved(), out: s.out.push(Packet::Data(m.dma_quad(c.madr))), done: s.done }
    } else if !c.chained() || c.tag_end {
        Stream { ch: c.stopped(), out: s.out, done: true }
    } else {
        let t = m.dma_quad(c.tadr);
        Stream {
            ch: c.begun(t, tie),
            out: if c.chcr & EE_CHCR_TTE != 0 {
                s.out.push(Packet::Tag(t.w2, t.w3))
            } else {
                s.out
            },
            done: s.done,
        }
    }
}

/// A channel run to completion, or for `n` steps.
pub open spec fn streamed_all(m: MemModel, s: Stream, tie: bool, n: int) -> Stream
    decreases n,
{
    if n <= 0 || !s.ch.running() {
        s
    } else {
        streamed_all(m, streamed(m, s, tie), tie, n - 1)
    }
}

/// What a memory-reading channel does when it is started.
pub open spec fn pumped(m: MemModel, ch: EeDmaChannel, tie: bool) -> Stream {
    streamed_all(m, Stream { ch, out: Seq::empty(), done: false }, tie, STEP_LIMIT as int)
}

/// Run a memory-reading channel (VIF0, VIF1, GIF, IPU_TO) to completion:
/// normal or source chain. Gives what it delivered and whether its
/// interrupt is due.
pub fn pump(ch: &mut EeDmaChannel, mem: &Memory, tie: bool) -> (r: (Vec<Packet>, bool))
    requires
        old(ch).wf(),
        mem.wf(),
    ensures
        final(ch).wf(),
        ({
            let s = pumped(mem.model(), *old(ch), tie);
            &&& *final(ch) == s.ch
            &&& r.0@ == s.out
            &&& r.1 == s.done
        }),
{
    let mut out: Vec<Packet> = Vec::new();
    let mut done = false;
    let mut n: u32 = 0;
    let ghost start = Stream { ch: *ch, out: Seq::empty(), done: false };
    while n < STEP_LIMIT && ch.chcr & EE_CHCR_STR != 0
        invariant
            n <= STEP_LIMIT,
            ch.wf(),
            mem.wf(),
            streamed_all(mem.model(), start, tie, STEP_LIMIT as int) == streamed_all(
                mem.model(),
                (Stream { ch: *ch, out: out@, done }),
                tie,
                STEP_LIMIT - n,
            ),
        decreases STEP_LIMIT - n,
    {
        n = n + 1;
        if ch.qwc > 0 {
            let q = mem.ee_dma_read128(ch.madr);
            out.push(Packet::Data(q));
            ch.madr = ch.madr.wrapping_add(16);
            ch.qwc = ch.qwc - 1;
        } else if ch.chcr / 4 % 4 != 1 || ch.tag_end {
            ch.chcr = ch.chcr & !EE_CHCR_STR;
            ch.tag_end = false;
            done = true;
        } else {
            let t = mem.ee_dma_read128(ch.tadr);
            let tte = ch.chcr & EE_CHCR_TTE != 0;
            ch.begin(t, tie);
            if tte {
                out.push(Packet::Tag(t.w2, t.w3));
            }
        }
    }
    (out, done)
}

/// The data of a block, read one quadword after the other.
pub open spec fn block_data(m: MemModel, madr: u32, n: int) -> Seq<Packet>
    decreases n,
{
    if n <= 0 {
        Seq::empty()
    } else {
        seq![Packet::Data(m.dma_quad(madr))] + block_data(m, madr.wrapping_add(16), n - 1)
    }
}

proof fn lemma_chcr_stops(chcr: u32)
    by (bit_vector)
    ensures
        (chcr & !0x100u32) & 0x100 == 0,
{
}

/// A block delivers its quadwords in order and leaves the address behind
/// them; without a chain the channel then stops with its interrupt due.
pub proof fn law_normal_mode_delivers_the_block(m: MemModel, s: Stream, tie: bool, fuel: int)
    requires
        s.ch.running(),
        !s.ch.chained(),
        s.ch.qwc <= 0xFFFF,
        fuel > s.ch.qwc,
    ensures
        ({
            let e = streamed_all(m, s, tie, fuel);
            &&& e.out == s.out + block_data(m, s.ch.madr, s.ch.qwc as int)
            &&& e.done
            &&& !e.ch.running()
            &&& e.ch.qwc == 0
        }),
    decreases s.ch.qwc,
{
    let t = streamed(m, s, tie);
    if s.ch.qwc > 0 {
        law_normal_mode_delivers_the_block(m, t, tie, fuel - 1);
        assert(s.out + block_data(m, s.ch.madr, s.ch.qwc as int) =~= t.out + block_data(m, t.ch.madr, t.ch.qwc as int));
    } else {
        lemma_chcr_stops(s.ch.chcr);
        assert(streamed_all(m, t, tie, fuel - 1) == t);
        assert(s.out + block_data(m, s.ch.madr, 0) =~= s.out);
    }
}

// --- the scratchpad channels ------------------------------------------------------

/// A scratchpad transfer under way.
pub struct Spr {
    pub ch: EeDmaChannel,
    pub mem: MemModel,
    pub done: bool,
}

/// The scratchpad address one quadword on, wrapping inside the 16 KB.
pub open spec fn spr_next(sadr: u32) -> u32 {
    ((sadr + 16) % 0x4000) as u32
}

/// The tag that the next block comes from: `to` (channel 9) reads memory at
/// TADR, channel 8 the scratchpad at SADR, since that is the side the DMAC
/// reads.
pub open spec fn spr_tag(s: Spr, to: bool) -> Quad {
    if to {
        s.mem.dma_quad(s.ch.tadr)
    } else {
        quad_at(s.mem.spad, spr(s.ch.sadr))
    }
}

/// One chain step with the data run exhausted: finish the transfer, or set
/// up the run that the next tag describes. The destination chain of channel
/// 8 knows cnts, cnt and end only; another tag stops it without an
/// interrupt.
pub open spec fn spr_chained(s: Spr, to: bool) -> Spr {
    let c = s.ch;
    let t = spr_tag(s, to);
    let ends = tag_irq(t) && c.chcr & EE_CHCR_TIE != 0;
    if !c.chained() || c.tag_end {
        Spr { ch: c.stopped(), done: true, ..s }
    } else if to {
        Spr { ch: c.begun(t, true), ..s }
    } else if tag_id(t) == 0 || tag_id(t) == 1 || tag_id(t) == 7 {
        Spr {
            ch: EeDmaChannel {
                madr: tag_addr(t),
                sadr: spr_next(c.sadr),
                tag_end: tag_id(t) == 7 || ends,
                qwc: tag_qwc(t),
                ..c
            },
            ..s
        }
    } else {
        Spr { ch: EeDmaChannel { chcr: c.chcr & !EE_CHCR_STR, ..c }, ..s }
    }
}

/// One quadword into the scratchpad (`to`) or out of it.
pub open spec fn spr_moved(s: Spr, to: bool) -> Spr {
    let c = s.ch;
    let mem = if to {
        MemModel { spad: super::memory::with_quad(s.mem.spad, spr(c.sadr), s.mem.dma_quad(c.madr)), ..s.mem }
    } else {
        s.mem.dma_put(c.madr, quad_at(s.mem.spad, spr(c.sadr)))
    };
    Spr { ch: EeDmaChannel { sadr: spr_next(c.sadr), ..c.moved() }, mem, done: s.done }
}

pub open spec fn spr_run(s: Spr, to: bool, n: int) -> Spr
    decreases n,
{
    if n <= 0 || !s.ch.running() {
        s
    } else if s.ch.qwc > 0 {
        spr_run(spr_moved(s, to), to, n - 1)
    } else {
        spr_run(spr_chained(s, to), to, n - 1)
    }
}

fn spr_chain(ch: &mut EeDmaChannel, mem: &Memory, to: bool) -> (done: bool)
    requires
        old(ch).wf(),
        mem.wf(),
    ensures
        final(ch).wf(),
        ({
            let s = spr_chained((Spr { ch: *old(ch), mem: mem.model(), done: false }), to);
            &&& *final(ch) == s.ch
            &&& done == s.done
            &&& s.mem == mem.model()
        }),
{
    if ch.chcr / 4 % 4 != 1 || ch.tag_end {
        ch.chcr = ch.chcr & !EE_CHCR_STR;
        ch.tag_end = false;
        return true;
    }
    if to {
        let t = mem.ee_dma_read128(ch.tadr);
        ch.begin(t, true);
        return false;
    }
    let t = mem.spad_read128(ch.sadr);
    let id: u32 = t.w0 / 0x1000_0000 % 8;
    if id != 0 && id != 1 && id != 7 {
        ch.chcr = ch.chcr & !EE_CHCR_STR;
        return false;
    }
    ch.madr = t.w1 / 16 * 16;
    ch.sadr = (ch.sadr + 16) % 0x4000;
    ch.tag_end = id == 7 || (t.w0 >= 0x8000_0000 && ch.chcr & EE_CHCR_TIE != 0);
    ch.qwc = t.w0 % 0x1_0000;
    false
}

/// Run a scratchpad channel to completion: channel 9 (`to`) moves quadwords
/// from main memory into the scratchpad, channel 8 the other way. MADR walks
/// memory, SADR the scratchpad. Whether the interrupt is due.
pub fn pump_spr(ch: &mut EeDmaChannel, mem: &mut Memory, to: bool) -> (done: bool)
    requires
        old(ch).wf(),
        old(mem).wf(),
    ensures
        final(ch).wf(),
        final(mem).wf(),
        ({
            let s = spr_run((Spr { ch: *old(ch), mem: old(mem).model(), done: false }), to, STEP_LIMIT as int);
            &&& *final(ch) == s.ch
            &&& final(mem).model() == s.mem
            &&& done == s.done
        }),
{
    let mut done = false;
    let mut n: u32 = 0;
    let ghost start = Spr { ch: *ch, mem: mem.model(), done: false };
    while n < STEP_LIMIT && ch.chcr & EE_CHCR_STR != 0
        invariant
            n <= STEP_LIMIT,
            ch.wf(),
            mem.wf(),
            ch.running() ==> !done,
            spr_run(start, to, STEP_LIMIT as int) == spr_run(
                (Spr { ch: *ch, mem: mem.model(), done }),
                to,
                STEP_LIMIT - n,
            ),
        decreases STEP_LIMIT - n,
    {
        n = n + 1;
        if ch.qwc > 0 {
            if to {
                let q = mem.ee_dma_read128(ch.madr);
                mem.spad_write128(ch.sadr, q);
            } else {
                let q = mem.spad_read128(ch.sadr);
                mem.ee_dma_write128(ch.madr, q);
            }
            ch.sadr = (ch.sadr + 16) % 0x4000;
            ch.madr = ch.madr.wrapping_add(16);
            ch.qwc = ch.qwc - 1;
        } else {
            proof {
                lemma_chcr_stops(ch.chcr);
            }
            done = spr_chain(ch, mem, to);
        }
    }
    done
}

} // verus!
