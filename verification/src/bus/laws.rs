//! What holds across accesses to the bus.

use vstd::prelude::*;
use crate::bytes::{get, law_get_after_put, lemma_pow256_values, pow256};
use super::memory::{is_size, RAM_SIZE};
use super::regs::{BusModel, EeRegs, DMA_IRQ_DELAY, INTC_LATENCY};
use super::tick::{due_bits, later};
use super::tlb::law_kernel_segments_mirror_ram;

verus! {

/// Low RAM reads back what was written, through kuseg, KSEG0 and KSEG1
/// alike, whatever the TLB holds.
pub proof fn law_ram_reads_back(m: BusModel, a: u32, n: usize, v: u64)
    requires
        m.mem.wf(),
        is_size(n),
        a + n <= RAM_SIZE,
    ensures
        ({
            let w = m.phys_written(m.phys(a), n, v);
            &&& w.phys_value(w.phys(a), n) == v as nat % pow256(n as nat)
            &&& w.phys_value(w.phys((0x8000_0000 + a) as u32), n) == v as nat % pow256(n as nat)
            &&& w.phys_value(w.phys((0xA000_0000 + a) as u32), n) == v as nat % pow256(n as nat)
        }),
{
    let w = m.phys_written(m.phys(a), n, v);
    law_kernel_segments_mirror_ram(m.tlb, a);
    law_kernel_segments_mirror_ram(w.tlb, a);
    law_get_after_put(m.mem.ram, a as int, n as int, v as nat);
    lemma_pow256_values();
    vstd::arithmetic::div_mod::lemma_mod_bound(v as int, pow256(n as nat) as int);
    vstd::arithmetic::div_mod::lemma_mod_decreases(v as nat, pow256(n as nat));
}

/// What the EE writes through its window the IOP reads in its own RAM, and
/// the other way round.
pub proof fn law_iop_ram_is_shared(m: BusModel, a: u32, n: usize, v: u32)
    requires
        m.mem.wf(),
        is_size(n),
        n <= 4,
        a + n <= 0x20_0000,
    ensures
        ({
            let w = m.phys_written((0x1C00_0000 + a) as u32, n, v as u64);
            w.iop_value(a, n) == v as nat % pow256(n as nat)
        }),
        ({
            let w = m.iop_written(a, n, v);
            w.phys_value((0x1C00_0000 + a) as u32, n) == v as nat % pow256(n as nat)
        }),
{
    law_get_after_put(m.mem.iop_ram, a as int, n as int, v as nat);
    lemma_pow256_values();
    vstd::arithmetic::div_mod::lemma_mod_bound(v as int, pow256(n as nat) as int);
    vstd::arithmetic::div_mod::lemma_mod_decreases(v as nat, pow256(n as nat));
}

/// A debugger's read gives the byte that a real read gives, in every memory.
pub proof fn law_peek_agrees_with_read(m: BusModel, a: u32)
    requires
        m.mem.wf(),
        a < RAM_SIZE || (0x7000_0000 <= a <= 0x7000_3FFF) || (0x1C00_0000 <= a <= 0x1C1F_FFFF) || (0x1FC0_0000 <= a
            <= 0x1FFF_FFFF),
    ensures
        m.peeked(a) == Some(m.phys_value(a, 1) as u8),
        m.phys_read(a) == m,
{
    if a < RAM_SIZE {
        lemma_byte(m.mem.ram, a as int);
    } else if a >= 0x7000_0000 {
        lemma_byte(m.mem.spad, a - 0x7000_0000);
    } else if a < 0x1FC0_0000 {
        lemma_byte(m.mem.iop_ram, a - 0x1C00_0000);
    } else {
        lemma_byte(m.mem.bios, a - 0x1FC0_0000);
    }
}

proof fn lemma_byte(s: Seq<u8>, at: int)
    requires
        0 <= at < s.len(),
    ensures
        get(s, at, 1) == s[at],
{
    crate::bytes::lemma_get_step(s, at, 1);
    crate::bytes::lemma_get_none(s, at + 1);
}

/// A debugger reads back what it wrote, and where its write is refused
/// nothing changes.
pub proof fn law_peek_after_poke(m: BusModel, a: u32, v: u8)
    requires
        m.mem.wf(),
    ensures
        BusModel::pokes(a) ==> m.poked(a, v).peeked(a) == Some(v),
        !BusModel::pokes(a) ==> m.poked(a, v) == m,
{
}

/// An INTC source is recognised a fixed time after it is raised, not in the
/// same cycle, so a spin loop on INTC_STAT gets a look in.
pub proof fn law_interrupts_take_time(e: EeRegs, mask: u32)
    requires
        e.wf(),
        e.intc_ready_at == u64::MAX,
        (e.intc_stat | mask) & e.intc_mask != 0,
    ensures
        e.raised(mask).intc_stat == e.intc_stat | mask,
        e.raised(mask).intc_ready_at == e.now + INTC_LATENCY,
        e.now < e.raised(mask).intc_ready_at,
{
}

/// INTC_STAT clears exactly the bits written as 1 and its interrupt goes
/// with the last of them; writing the same value to INTC_MASK twice restores
/// it.
pub proof fn law_intc_registers(m: BusModel, w: u32)
    ensures
        ({
            let c = m.interrupts_written(0x1000_F000, w);
            &&& c.ee.intc_stat == m.ee.intc_stat & !w
            &&& m.ee.intc_stat & !w == 0 ==> c.ee.intc_ready_at == u64::MAX
        }),
        m.interrupts_written(0x1000_F010, w).interrupts_written(0x1000_F010, w).ee.intc_mask == m.ee.intc_mask,
        m.interrupts_written(0x1000_E010, 0xFFFF).ee.d_stat & 0x3FF == 0,
{
    let (s, k, h, d) = (m.ee.intc_stat, m.ee.intc_mask, (w % 0x1_0000) as u32, m.ee.d_stat);
    assert(((k ^ h) ^ h) == k && (0u32 & k) == 0 && ((d & !0xFFFFu32) & 0x3FF) == 0) by (bit_vector);
}

/// A DMA completion is not seen when the transfer starts, and is seen once
/// its delay has passed; then it is delivered only once.
pub proof fn law_dma_completion_is_deferred(irqs: Seq<(u32, u64)>, bit: u32, now: u64, later_on: u64, d: u32)
    requires
        now + DMA_IRQ_DELAY <= later_on,
    ensures
        ({
            let q = irqs.push((bit, (now + DMA_IRQ_DELAY) as u64));
            &&& due_bits(q, now, d) == due_bits(irqs, now, d)
            &&& due_bits(q, later_on, d) == due_bits(irqs, later_on, d) | bit
            &&& later(q, later_on) == later(irqs, later_on)
        }),
{
    let q = irqs.push((bit, (now + DMA_IRQ_DELAY) as u64));
    assert(q.drop_last() =~= irqs);
}

/// The RDRAM handshake: after INIT, each device answers once and then no
/// more.
pub proof fn law_rdram_devices_answer_once(m: BusModel)
    requires
        ({
            let ricm = get(m.mmio, 0xF430, 4) as u64;
            crate::bits::bits(ricm, 6, 0xF) == 0 && crate::bits::bits(ricm, 16, 0xFFF) == 0x21
        }),
        m.ee.rdram_sdevid == 0,
    ensures
        ({
            let a = m.mmio_read(0x1000_F440);
            let b = a.mmio_read(0x1000_F440);
            &&& m.rdram_answer() == 0x1F
            &&& a.rdram_answer() == 0x1F
            &&& b.rdram_answer() == 0
            &&& b.mmio_read(0x1000_F440) == b
        }),
{
}

} // verus!
