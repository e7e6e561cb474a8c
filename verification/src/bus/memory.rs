//! The memories of the machine and the two CPUs' plain views of them.

use vstd::prelude::*;
use crate::bytes::{
    get, lemma_get_none, lemma_get_step, lemma_pow256_values, put, rd16, rd32, rd64, wr16, wr32, wr64,
};

verus! {

pub const RAM_SIZE: usize = 32 * 1024 * 1024;

pub const BIOS_SIZE: usize = 4 * 1024 * 1024;

pub const SPAD_SIZE: usize = 16 * 1024;

pub const IOP_RAM_SIZE: usize = 2 * 1024 * 1024;

pub const IOP_SPAD_SIZE: usize = 1024;

/// Access sizes in bytes.
pub open spec fn is_size(n: usize) -> bool {
    n == 1 || n == 2 || n == 4 || n == 8
}

/// The `n`-byte value at `offset`.
pub fn read_le(mem: &Vec<u8>, offset: usize, n: usize) -> (v: u64)
    requires
        is_size(n),
        offset + n <= mem.len(),
    ensures
        v == get(mem@, offset as int, n as int),
{
    match n {
        1 => {
            proof {
                lemma_get_step(mem@, offset as int, 1);
                lemma_get_none(mem@, offset + 1);
            }
            mem[offset] as u64
        },
        2 => rd16(mem.as_slice(), offset) as u64,
        4 => rd32(mem.as_slice(), offset) as u64,
        _ => rd64(mem.as_slice(), offset),
    }
}

/// Store the low `n` bytes of `v` at `offset`.
pub fn write_le(mem: &mut Vec<u8>, offset: usize, n: usize, v: u64)
    requires
        is_size(n),
        offset + n <= old(mem).len(),
    ensures
        final(mem)@ == put(old(mem)@, offset as int, n as int, v as nat),
{
    match n {
        1 => {
            mem[offset] = (v % 256) as u8;
            proof {
                reveal_with_fuel(crate::bytes::le_bytes, 2);
                assert(mem@ =~= put(old(mem)@, offset as int, 1, v as nat));
            }
        },
        2 => {
            wr16(mem, offset, (v % 0x1_0000) as u16);
            proof {
                lemma_put_low(old(mem)@, offset as int, 2, v as nat, (v % 0x1_0000) as nat);
            }
        },
        4 => {
            wr32(mem, offset, (v % 0x1_0000_0000) as u32);
            proof {
                lemma_put_low(old(mem)@, offset as int, 4, v as nat, (v % 0x1_0000_0000) as nat);
            }
        },
        _ => wr64(mem, offset, v),
    }
}

/// Only the low bytes of a stored value matter.
proof fn lemma_put_low(mem: Seq<u8>, at: int, n: int, v: nat, low: nat)
    requires
        n == 2 || n == 4,
        n == 2 ==> low == v % 0x1_0000,
        n == 4 ==> low == v % 0x1_0000_0000,
    ensures
        put(mem, at, n, v) == put(mem, at, n, low),
{
    lemma_pow256_values();
    crate::bytes::lemma_le_bytes_low(v, n as nat);
}

/// Read `n` bytes of a 32-bit register at the byte lane selected by `addr`.
pub open spec fn sub_word(reg: u32, addr: u32, n: usize) -> u32 {
    let up = reg >> ((addr % 4) * 8) as u32;
    if n >= 4 {
        up
    } else if n == 2 {
        up & 0xFFFF
    } else {
        up & 0xFF
    }
}

pub fn extract_sub_word(reg: u32, addr: u32, n: usize) -> (r: u32)
    ensures
        r == sub_word(reg, addr, n),
{
    let shift: u32 = addr % 4 * 8;
    let up: u32 = reg >> shift;
    if n >= 4 {
        up
    } else if n == 2 {
        up & 0xFFFF
    } else {
        up & 0xFF
    }
}

/// Merge an `n`-byte write into a 32-bit register at the byte lane selected
/// by `addr`.
pub open spec fn merged_word(reg: u32, addr: u32, n: usize, v: u32) -> u32 {
    let shift = ((addr % 4) * 8) as u32;
    let mask = if n >= 4 {
        u32::MAX
    } else if n == 2 {
        0xFFFFu32 << shift
    } else {
        0xFFu32 << shift
    };
    (reg & !mask) | ((v << shift) & mask)
}

pub fn merge_sub_word(reg: u32, addr: u32, n: usize, v: u32) -> (r: u32)
    ensures
        r == merged_word(reg, addr, n, v),
{
    let shift: u32 = addr % 4 * 8;
    let mask: u32 = if n >= 4 {
        u32::MAX
    } else if n == 2 {
        0xFFFFu32 << shift
    } else {
        0xFFu32 << shift
    };
    (reg & !mask) | ((v << shift) & mask)
}

/// A lane reads back what was merged into it, and the other lanes stay.
pub proof fn law_sub_word_round_trip(reg: u32, lane: u32, v: u32)
    requires
        lane < 4,
    ensures
        sub_word(merged_word(reg, lane, 1, v), lane, 1) == v & 0xFF,
        lane % 2 == 0 ==> sub_word(merged_word(reg, lane, 2, v), lane, 2) == v & 0xFFFF,
        merged_word(reg, 0, 4, v) == v,
        forall|other: u32|
            other < 4 && other != lane ==> #[trigger] sub_word(merged_word(reg, lane, 1, v), other, 1) == sub_word(reg, other, 1),
{
    let s = (lane * 8) as u32;
    assert((((reg & !(0xFFu32 << s)) | ((v << s) & (0xFFu32 << s))) >> s) & 0xFF == v & 0xFF && (s % 16 == 0 ==> (((reg & !(
    0xFFFFu32 << s)) | ((v << s) & (0xFFFFu32 << s))) >> s) & 0xFFFF == v & 0xFFFF) && (reg & !0xFFFF_FFFFu32) | ((v << 0u32)
        & 0xFFFF_FFFFu32) == v) by (bit_vector)
        requires
            s == 0 || s == 8 || s == 16 || s == 24,
    ;
    assert forall|other: u32| other < 4 && other != lane implies #[trigger] sub_word(
        merged_word(reg, lane, 1, v),
        other,
        1,
    ) == sub_word(reg, other, 1) by {
        let t = (other * 8) as u32;
        assert((((reg & !(0xFFu32 << s)) | ((v << s) & (0xFFu32 << s))) >> t) & 0xFF == (reg >> t) & 0xFF) by (bit_vector)
            requires
                s == 0 || s == 8 || s == 16 || s == 24,
                t == 0 || t == 8 || t == 16 || t == 24,
                s != t,
        ;
    }
}

/// A quadword.
#[derive(Clone, Copy, PartialEq, Eq, Structural)]
pub struct Quad {
    pub w0: u32,
    pub w1: u32,
    pub w2: u32,
    pub w3: u32,
}

/// The quadword at `at`.
pub open spec fn quad_at(mem: Seq<u8>, at: int) -> Quad {
    Quad {
        w0: get(mem, at, 4) as u32,
        w1: get(mem, at + 4, 4) as u32,
        w2: get(mem, at + 8, 4) as u32,
        w3: get(mem, at + 12, 4) as u32,
    }
}

/// `mem` with a quadword stored at `at`.
pub open spec fn with_quad(mem: Seq<u8>, at: int, q: Quad) -> Seq<u8> {
    put(put(put(put(mem, at, 4, q.w0 as nat), at + 4, 4, q.w1 as nat), at + 8, 4, q.w2 as nat), at + 12, 4, q.w3 as nat)
}

pub fn read_quad(mem: &Vec<u8>, at: usize) -> (q: Quad)
    requires
        at + 16 <= mem.len(),
    ensures
        q == quad_at(mem@, at as int),
{
    Quad {
        w0: rd32(mem.as_slice(), at),
        w1: rd32(mem.as_slice(), at + 4),
        w2: rd32(mem.as_slice(), at + 8),
        w3: rd32(mem.as_slice(), at + 12),
    }
}

pub fn write_quad(mem: &mut Vec<u8>, at: usize, q: Quad)
    requires
        at + 16 <= old(mem).len(),
    ensures
        final(mem)@ == with_quad(old(mem)@, at as int, q),
        final(mem)@.len() == old(mem)@.len(),
{
    wr32(mem, at, q.w0);
    wr32(mem, at + 4, q.w1);
    wr32(mem, at + 8, q.w2);
    wr32(mem, at + 12, q.w3);
}

/// The memories, and what the recompiler has to hear of writes to RAM.
pub struct Memory {
    pub ram: Vec<u8>,
    pub spad: Vec<u8>,
    pub bios: Vec<u8>,
    /// IOP RAM, seen from the EE at 0x1C00_0000.
    pub iop_ram: Vec<u8>,
    /// IOP scratchpad (at 0x1F80_0000).
    pub iop_spad: Vec<u8>,
    /// RAM pages (4 KiB) holding recompiled code; a write to one queues the
    /// address in `dirty_code_writes` for the recompiler to drop the blocks
    /// covering it (kernel data shares pages with kernel code, so whole
    /// pages would thrash).
    pub code_pages: Vec<bool>,
    pub dirty_code_writes: Vec<u32>,
}

/// The memories over sequences.
pub struct MemModel {
    pub ram: Seq<u8>,
    pub spad: Seq<u8>,
    pub bios: Seq<u8>,
    pub iop_ram: Seq<u8>,
    pub iop_spad: Seq<u8>,
    pub code_pages: Seq<bool>,
    pub dirty: Seq<u32>,
}

/// Queue of written code addresses after a write to physical `addr`: on a
/// code page, the address of its doubleword unless that is the last one.
pub open spec fn noted(code_pages: Seq<bool>, dirty: Seq<u32>, addr: int) -> Seq<u32> {
    let a = (addr - addr % 8) as u32;
    if code_pages[addr / 4096] && !(dirty.len() > 0 && dirty.last() == a) {
        dirty.push(a)
    } else {
        dirty
    }
}

impl MemModel {
    /// Zeroed memories beside a BIOS, without code or notes.
    pub open spec fn blank(bios: Seq<u8>) -> MemModel {
        MemModel {
            ram: Seq::new(RAM_SIZE as nat, |i: int| 0u8),
            spad: Seq::new(SPAD_SIZE as nat, |i: int| 0u8),
            bios,
            iop_ram: Seq::new(IOP_RAM_SIZE as nat, |i: int| 0u8),
            iop_spad: Seq::new(IOP_SPAD_SIZE as nat, |i: int| 0u8),
            code_pages: Seq::new(8192, |i: int| false),
            dirty: Seq::empty(),
        }
    }

    pub open spec fn wf(self) -> bool {
        &&& self.ram.len() == RAM_SIZE
        &&& self.spad.len() == SPAD_SIZE
        &&& self.bios.len() == BIOS_SIZE
        &&& self.iop_ram.len() == IOP_RAM_SIZE
        &&& self.iop_spad.len() == IOP_SPAD_SIZE
        &&& self.code_pages.len() == 8192
    }

    /// RAM written at physical `addr`.
    pub open spec fn ram_put(self, addr: int, n: int, v: nat) -> MemModel {
        MemModel {
            ram: put(self.ram, addr, n, v),
            dirty: noted(self.code_pages, self.dirty, addr),
            ..self
        }
    }

    /// One quadword for EE-side DMA. Bit 31 of the address selects the
    /// scratchpad, which wraps; elsewhere outside RAM reads zeros.
    pub open spec fn dma_quad(self, addr: u32) -> Quad {
        let a = addr as int % 0x2000_0000 / 16 * 16;
        if addr >= 0x8000_0000 {
            quad_at(self.spad, spr(addr))
        } else if a + 16 <= RAM_SIZE {
            quad_at(self.ram, a)
        } else {
            Quad { w0: 0, w1: 0, w2: 0, w3: 0 }
        }
    }

    /// A quadword written by EE-side DMA; outside RAM it is lost.
    pub open spec fn dma_put(self, addr: u32, q: Quad) -> MemModel {
        let a = addr as int % 0x2000_0000 / 16 * 16;
        if addr >= 0x8000_0000 {
            MemModel { spad: with_quad(self.spad, spr(addr), q), ..self }
        } else if a + 16 <= RAM_SIZE {
            MemModel { ram: with_quad(self.ram, a, q), dirty: noted(self.code_pages, self.dirty, a), ..self }
        } else {
            self
        }
    }
}

impl MemModel {
    /// Where a plain IOP address lands: 0 = IOP RAM (2 MiB, mirrored through
    /// the first 8), 1 = its scratchpad, 2 = the BIOS; `None` for devices,
    /// cache control and nothing.
    pub open spec fn iop_place(vaddr: u32) -> Option<(int, int)> {
        let a = vaddr as int % 0x2000_0000;
        if vaddr >= 0xFFFE_0000 {
            None
        } else if a < 0x80_0000 {
            Some((0, a % 0x20_0000))
        } else if 0x1F80_0000 <= a < 0x1F80_0400 {
            Some((1, a % 0x400))
        } else if 0x1FC0_0000 <= a {
            Some((2, a % 0x40_0000))
        } else {
            None
        }
    }

    /// What a debugger's IOP-side read gives.
    pub open spec fn iop_peeked(self, vaddr: u32) -> Option<u8> {
        match MemModel::iop_place(vaddr) {
            Some((p, a)) => Some(
                if p == 0 {
                    self.iop_ram[a]
                } else if p == 1 {
                    self.iop_spad[a]
                } else {
                    self.bios[a]
                },
            ),
            None => None,
        }
    }

    /// Whether a debugger's IOP-side write lands: ROM and devices refuse it.
    pub open spec fn iop_pokes(vaddr: u32) -> bool {
        MemModel::iop_place(vaddr) matches Some((p, a)) && p != 2
    }

    pub open spec fn iop_poked(self, vaddr: u32, v: u8) -> MemModel {
        match MemModel::iop_place(vaddr) {
            Some((p, a)) => if p == 0 {
                MemModel { iop_ram: self.iop_ram.update(a, v), ..self }
            } else if p == 1 {
                MemModel { iop_spad: self.iop_spad.update(a, v), ..self }
            } else {
                self
            },
            None => self,
        }
    }
}

/// Scratchpad offset of a DMA address: its quadword in the 16 KiB.
pub open spec fn spr(addr: u32) -> int {
    addr as int % 0x4000 / 16 * 16
}

fn zeroed(n: usize) -> (v: Vec<u8>)
    ensures
        v@ == Seq::new(n as nat, |i: int| 0u8),
{
    let v: Vec<u8> = vec![0u8; n];
    assert(v@ =~= Seq::new(n as nat, |i: int| 0u8));
    v
}

impl Memory {
    pub open spec fn model(&self) -> MemModel {
        MemModel {
            ram: self.ram@,
            spad: self.spad@,
            bios: self.bios@,
            iop_ram: self.iop_ram@,
            iop_spad: self.iop_spad@,
            code_pages: self.code_pages@,
            dirty: self.dirty_code_writes@,
        }
    }

    pub open spec fn wf(&self) -> bool {
        self.model().wf()
    }

    pub fn new(bios: Vec<u8>) -> (m: Self)
        requires
            bios@.len() == BIOS_SIZE,
        ensures
            m.wf(),
            m.bios == bios,
            m.model() == MemModel::blank(bios@),
    {
        let m = Memory {
            ram: zeroed(RAM_SIZE),
            spad: zeroed(SPAD_SIZE),
            bios,
            iop_ram: zeroed(IOP_RAM_SIZE),
            iop_spad: zeroed(IOP_SPAD_SIZE),
            code_pages: vec![false; 8192],
            dirty_code_writes: Vec::new(),
        };
        assert(m.code_pages@ =~= Seq::new(8192, |i: int| false));
        assert(m.dirty_code_writes@ =~= Seq::<u32>::empty());
        m
    }

    /// A physical RAM address was written: if recompiled code lives on its
    /// page, queue the address so the recompiler can drop blocks covering
    /// it. The dispatcher drains the queue after every block, so it stays
    /// short even for a hot variable next to code.
    pub fn note_ram_write(&mut self, addr: usize)
        requires
            old(self).wf(),
            addr < RAM_SIZE,
        ensures
            final(self).wf(),
            final(self).model() == (MemModel {
                dirty: noted(old(self).code_pages@, old(self).dirty_code_writes@, addr as int),
                ..old(self).model()
            }),
    {
        if self.code_pages[addr / 4096] {
            let a: u32 = (addr - addr % 8) as u32;
            let n: usize = self.dirty_code_writes.len();
            if n == 0 || self.dirty_code_writes[n - 1] != a {
                self.dirty_code_writes.push(a);
            }
        }
    }

    pub fn ram_write(&mut self, addr: usize, n: usize, v: u64)
        requires
            old(self).wf(),
            is_size(n),
            addr + n <= RAM_SIZE,
        ensures
            final(self).wf(),
            final(self).model() == old(self).model().ram_put(addr as int, n as int, v as nat),
    {
        write_le(&mut self.ram, addr, n, v);
        self.note_ram_write(addr);
    }

    /// Read one quadword for EE-side DMA. Bit 31 of MADR/TADR/tag
    /// addresses selects the scratchpad (SPR) instead of main RAM: the
    /// OSD builds its display lists there.
    pub fn ee_dma_read128(&self, addr: u32) -> (q: Quad)
        requires
            self.wf(),
        ensures
            q == self.model().dma_quad(addr),
    {
        if addr >= 0x8000_0000 {
            return read_quad(&self.spad, (addr % 0x4000 / 16 * 16) as usize);
        }
        let a: usize = (addr % 0x2000_0000 / 16 * 16) as usize;
        if a + 16 <= RAM_SIZE {
            read_quad(&self.ram, a)
        } else {
            Quad { w0: 0, w1: 0, w2: 0, w3: 0 }
        }
    }

    /// Write one quadword for EE-side DMA, taking bit 31 of the address
    /// as the scratchpad.
    pub fn ee_dma_write128(&mut self, addr: u32, q: Quad)
        requires
            old(self).wf(),
        ensures
            final(self).wf(),
            final(self).model() == old(self).model().dma_put(addr, q),
    {
        if addr >= 0x8000_0000 {
            self.spad_write128(addr, q);
            return;
        }
        let a: usize = (addr % 0x2000_0000 / 16 * 16) as usize;
        if a + 16 <= RAM_SIZE {
            write_quad(&mut self.ram, a, q);
            self.note_ram_write(a);
        }
    }

    /// One quadword of the scratchpad.
    pub fn spad_read128(&self, sadr: u32) -> (q: Quad)
        requires
            self.wf(),
        ensures
            q == quad_at(self.spad@, spr(sadr)),
    {
        read_quad(&self.spad, (sadr % 0x4000 / 16 * 16) as usize)
    }

    pub fn spad_write128(&mut self, sadr: u32, q: Quad)
        requires
            old(self).wf(),
        ensures
            final(self).wf(),
            final(self).model() == (MemModel { spad: with_quad(old(self).spad@, spr(sadr), q), ..old(self).model() }),
    {
        write_quad(&mut self.spad, (sadr % 0x4000 / 16 * 16) as usize, q);
    }

    // --- the IOP's plain view -----------------------------------------------

    /// Side-effect-free IOP-side read for the debugger.
    pub fn iop_peek8(&self, vaddr: u32) -> (r: Option<u8>)
        requires
            self.wf(),
        ensures
            r == self.model().iop_peeked(vaddr),
    {
        let a: u32 = vaddr % 0x2000_0000;
        if vaddr >= 0xFFFE_0000 {
            None
        } else if a < 0x80_0000 {
            Some(self.iop_ram[(a % 0x20_0000) as usize])
        } else if 0x1F80_0000 <= a && a < 0x1F80_0400 {
            Some(self.iop_spad[(a % 0x400) as usize])
        } else if 0x1FC0_0000 <= a {
            Some(self.bios[(a % 0x40_0000) as usize])
        } else {
            None
        }
    }

    /// Side-effect-free IOP-side write for the debugger; ROM and devices are
    /// refused.
    pub fn iop_poke8(&mut self, vaddr: u32, v: u8) -> (ok: bool)
        requires
            old(self).wf(),
        ensures
            final(self).wf(),
            ok == MemModel::iop_pokes(vaddr),
            final(self).model() == old(self).model().iop_poked(vaddr, v),
    {
        let a: u32 = vaddr % 0x2000_0000;
        if vaddr >= 0xFFFE_0000 {
            false
        } else if a < 0x80_0000 {
            self.iop_ram[(a % 0x20_0000) as usize] = v;
            true
        } else if 0x1F80_0000 <= a && a < 0x1F80_0400 {
            self.iop_spad[(a % 0x400) as usize] = v;
            true
        } else {
            false
        }
    }
}

/// A quadword written by DMA reads back by DMA at the same address, in RAM
/// and in the scratchpad.
pub proof fn law_dma_quad_round_trip(m: MemModel, addr: u32, q: Quad)
    requires
        m.wf(),
        addr >= 0x8000_0000 || addr as int % 0x2000_0000 / 16 * 16 + 16 <= RAM_SIZE,
    ensures
        m.dma_put(addr, q).dma_quad(addr) == q,
{
    let a = addr as int % 0x2000_0000 / 16 * 16;
    if addr >= 0x8000_0000 {
        lemma_quad_round_trip(m.spad, spr(addr), q);
    } else {
        lemma_quad_round_trip(m.ram, a, q);
    }
}

proof fn lemma_quad_round_trip(mem: Seq<u8>, at: int, q: Quad)
    requires
        0 <= at,
        at + 16 <= mem.len(),
    ensures
        quad_at(with_quad(mem, at, q), at) == q,
        with_quad(mem, at, q).len() == mem.len(),
{
    lemma_pow256_values();
    let m1 = put(mem, at, 4, q.w0 as nat);
    let m2 = put(m1, at + 4, 4, q.w1 as nat);
    let m3 = put(m2, at + 8, 4, q.w2 as nat);
    let m4 = put(m3, at + 12, 4, q.w3 as nat);
    crate::bytes::law_get_after_put(mem, at, 4, q.w0 as nat);
    crate::bytes::law_get_beside_put(m1, at + 4, 4, q.w1 as nat, at, 4);
    crate::bytes::law_get_beside_put(m2, at + 8, 4, q.w2 as nat, at, 4);
    crate::bytes::law_get_beside_put(m3, at + 12, 4, q.w3 as nat, at, 4);
    crate::bytes::law_get_after_put(m1, at + 4, 4, q.w1 as nat);
    crate::bytes::law_get_beside_put(m2, at + 8, 4, q.w2 as nat, at + 4, 4);
    crate::bytes::law_get_beside_put(m3, at + 12, 4, q.w3 as nat, at + 4, 4);
    crate::bytes::law_get_after_put(m2, at + 8, 4, q.w2 as nat);
    crate::bytes::law_get_beside_put(m3, at + 12, 4, q.w3 as nat, at + 8, 4);
    crate::bytes::law_get_after_put(m3, at + 12, 4, q.w3 as nat);
}

} // verus!
