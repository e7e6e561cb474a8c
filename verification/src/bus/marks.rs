//! Code marks are the recompiler's: nothing on the bus moves them.

use vstd::prelude::*;
use super::dma::{spr_chained, spr_moved, spr_run, Packet, Spr};
use super::regs::{BusModel, Channel};
use super::sif::{Link, SifEvent, ROUND_LIMIT, STEP_LIMIT};

verus! {

proof fn lemma_gif_packets(m: BusModel, out: Seq<Packet>)
    ensures
        m.gif_packets(out).mem == m.mem,
    decreases out.len(),
{
    if out.len() > 0 {
        lemma_gif_packets(m, out.drop_last());
    }
}

proof fn lemma_sif_events(m: BusModel, e: Seq<SifEvent>)
    ensures
        m.sif_events(e).mem == m.mem,
    decreases e.len(),
{
    if e.len() > 0 {
        lemma_sif_events(m, e.drop_last());
    }
}

proof fn lemma_step(l: Link, k: int)
    ensures
        l.step(k) matches Some(s) ==> s.mem.code_pages == l.mem.code_pages,
{
    reveal(Link::step);
}

proof fn lemma_ran(l: Link, k: int, n: int)
    ensures
        l.ran(k, n).mem.code_pages == l.mem.code_pages,
    decreases n,
{
    reveal(Link::ran);
    if n > 0 {
        lemma_step(l, k);
        if let Some(s) = l.step(k) {
            lemma_ran(s, k, n - 1);
        }
    }
}

proof fn lemma_pumped(l: Link, n: int)
    ensures
        l.pumped(n).mem.code_pages == l.mem.code_pages,
    decreases n,
{
    if n > 0 && l.moves() {
        let s = STEP_LIMIT as int;
        lemma_ran(l, 0, s);
        lemma_ran(l.ran(0, s), 1, s);
        lemma_ran(l.ran(0, s).ran(1, s), 2, s);
        lemma_ran(l.ran(0, s).ran(1, s).ran(2, s), 3, s);
        lemma_pumped(l.round(), n - 1);
    }
}

proof fn lemma_spr_run(s: Spr, to: bool, n: int)
    ensures
        spr_run(s, to, n).mem.code_pages == s.mem.code_pages,
    decreases n,
{
    if n > 0 && s.ch.running() {
        if s.ch.qwc > 0 {
            lemma_spr_run(spr_moved(s, to), to, n - 1);
        } else {
            lemma_spr_run(spr_chained(s, to), to, n - 1);
        }
    }
}

proof fn lemma_started(m: BusModel, id: Channel)
    ensures
        m.started(id).mem.code_pages == m.mem.code_pages,
{
    reveal(BusModel::started);
    match id {
        Channel::Gif => {
            let s = super::dma::pumped(m.mem, m.ee.gif, true);
            lemma_gif_packets(m.with_channel(Channel::Gif, s.ch).irq_if(s.done, 2), s.out);
        },
        Channel::Sif0 | Channel::Sif1 => {
            let l = m.link().pumped(ROUND_LIMIT as int);
            lemma_pumped(m.link(), ROUND_LIMIT as int);
            lemma_sif_events(m.with_link(l), l.events);
        },
        Channel::SprFrom => {
            lemma_spr_run(Spr { ch: m.channel(id), mem: m.mem, done: false }, false, super::dma::STEP_LIMIT as int);
        },
        Channel::SprTo => {
            lemma_spr_run(Spr { ch: m.channel(id), mem: m.mem, done: false }, true, super::dma::STEP_LIMIT as int);
        },
        _ => {},
    }
}

/// No access moves a code mark.
pub proof fn law_accesses_keep_code_marks(m: BusModel, addr: u32, n: usize, v: u64)
    ensures
        m.phys_read(addr).mem.code_pages == m.mem.code_pages,
        m.phys_written(addr, n, v).mem.code_pages == m.mem.code_pages,
{
    reveal(BusModel::mmio_written);
    assert forall|b: BusModel, id: Channel| (#[trigger] b.started(id)).mem.code_pages == b.mem.code_pages by {
        lemma_started(b, id);
    }
}

} // verus!
