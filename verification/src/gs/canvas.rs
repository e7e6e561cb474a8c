//! Local memory as a canvas of pixels.

use vstd::prelude::*;
use crate::bytes::{get, put, rd16, rd32, rd64, wr16, wr32, wr64, lemma_pow256_values, law_get_after_put};
use super::layout::{addr16, addr32, addr4, addr8, at16, at32, at4, at8, lemma_at_aligned};
use super::VRAM_SIZE;

verus! {

/// A power of two.
pub open spec fn is_pow2(n: int) -> bool {
    exists|k: nat| n == vstd::arithmetic::power2::pow2(k)
}

/// The two 4-bit halves of a byte: the low one first.
pub open spec fn nibble(b: u8, high: bool) -> u8 {
    if high {
        b >> 4
    } else {
        b & 0xF
    }
}

/// `b` with one half replaced by the low four bits of `v`.
pub open spec fn with_nibble(b: u8, high: bool, v: u8) -> u8 {
    if high {
        (b & 0x0F) | (v << 4)
    } else {
        (b & 0xF0) | (v & 0xF)
    }
}

proof fn lemma_nibble(b: u8, v: u8, high: bool)
    by (bit_vector)
    ensures
        nibble(with_nibble(b, high, v), high) == v & 0xF,
        nibble(with_nibble(b, high, v), !high) == nibble(b, !high),
{
}

pub struct Canvas {
    mem: Vec<u8>,
}

impl View for Canvas {
    type V = Seq<u8>;

    closed spec fn view(&self) -> Seq<u8> {
        self.mem@
    }
}

/// Offset of the 32-bit pixel in `len` bytes.
pub open spec fn off32(len: int, bp: u32, bw: u32, x: u32, y: u32, z: bool) -> int {
    at32(bp, bw, x, y, z) % len
}

/// Offset of the 16-bit pixel of format `psm` in `len` bytes.
pub open spec fn off16(len: int, bp: u32, bw: u32, x: u32, y: u32, psm: u32) -> int {
    at16(bp, bw, x, y, psm & 8 != 0, psm & 0x30 != 0) % len
}

/// Offset of the 8-bit texel in `len` bytes.
pub open spec fn off8(len: int, bp: u32, bw: u32, x: u32, y: u32) -> int {
    at8(bp, bw, x, y) % len
}

/// Offset of the byte that holds the 4-bit texel in `len` bytes.
pub open spec fn off4(len: int, bp: u32, bw: u32, x: u32, y: u32) -> int {
    (at4(bp, bw, x, y) / 2) % len
}

/// Whether the 4-bit texel is the high half of its byte.
pub open spec fn high4(bp: u32, bw: u32, x: u32, y: u32) -> bool {
    at4(bp, bw, x, y) % 2 == 1
}

/// A texel offset stays inside the buffer with all of its bytes.
proof fn lemma_fits(a: int, len: int, n: int)
    requires
        0 <= a,
        0 < len,
        n == 1 || n == 2 || n == 4,
        a % n == 0,
        len % 8 == 0,
    ensures
        0 <= a % len,
        a % len + n <= len,
{
    vstd::arithmetic::div_mod::lemma_fundamental_div_mod(a, len);
    let q = a / len;
    let k = len / 8;
    assert(len * q == 8 * (k * q)) by (nonlinear_arith)
        requires
            len == 8 * k,
    ;
}

pub proof fn lemma_offsets(len: int, bp: u32, bw: u32, x: u32, y: u32)
    requires
        0 < len,
    ensures
        0 <= off8(len, bp, bw, x, y) < len,
        0 <= off4(len, bp, bw, x, y) < len,
{
    lemma_at_aligned(bp, bw, x, y, false, false);
    vstd::arithmetic::div_mod::lemma_mod_bound(at8(bp, bw, x, y), len);
    vstd::arithmetic::div_mod::lemma_mod_bound(at4(bp, bw, x, y) / 2, len);
}

impl Canvas {
    pub closed spec fn wf(&self) -> bool {
        &&& self.mem@.len() >= 8
        &&& self.mem@.len() % 8 == 0
        &&& is_pow2(self.mem@.len() as int)
    }

    /// What `wf` says of the size.
    pub proof fn lemma_wf(&self)
        requires
            self.wf(),
        ensures
            8 <= self@.len() <= usize::MAX,
            self@.len() % 8 == 0,
            is_pow2(self@.len() as int),
    {
        assert(self.mem.len() == self.mem@.len());
    }

    pub fn new() -> (c: Self)
        ensures
            c.wf(),
            c@ == Seq::new(VRAM_SIZE as nat, |i: int| 0u8),
    {
        proof {
            vstd::arithmetic::power2::lemma2_to64();
            assert(VRAM_SIZE == vstd::arithmetic::power2::pow2(22));
        }
        Self::with_size(VRAM_SIZE)
    }

    /// A canvas of `len` bytes (power of two): the real 4 MiB local memory,
    /// or the scaled shadow the internal-2x overlay draws into.
    pub fn with_size(len: usize) -> (c: Self)
        requires
            8 <= len,
            is_pow2(len as int),
        ensures
            c.wf(),
            c@ == Seq::new(len as nat, |i: int| 0u8),
    {
        let mem: Vec<u8> = vec![0u8; len];
        proof {
            lemma_pow2_multiple_of_8(len as int);
            assert(mem@ =~= Seq::new(len as nat, |i: int| 0u8));
        }
        Canvas { mem }
    }

    /// A canvas that holds these bytes.
    pub fn of(mem: Vec<u8>) -> (c: Self)
        requires
            8 <= mem@.len(),
            is_pow2(mem@.len() as int),
        ensures
            c.wf(),
            c@ == mem@,
    {
        proof {
            lemma_pow2_multiple_of_8(mem@.len() as int);
        }
        Canvas { mem }
    }

    /// Address wrap mask (`len - 1`).
    pub fn mask(&self) -> (m: usize)
        requires
            self.wf(),
        ensures
            m == self@.len() - 1,
    {
        self.mem.len() - 1
    }

    pub fn size(&self) -> (n: usize)
        ensures
            n == self@.len(),
    {
        self.mem.len()
    }

    /// The whole buffer.
    pub fn bytes(&self) -> (b: &[u8])
        ensures
            b@ == self@,
    {
        self.mem.as_slice()
    }

    pub fn to_vec(&self) -> (b: Vec<u8>)
        ensures
            b@ == self@,
    {
        let mut out: Vec<u8> = Vec::with_capacity(self.mem.len());
        for i in 0..self.mem.len()
            invariant
                out@ == self.mem@.subrange(0, i as int),
        {
            out.push(self.mem[i]);
            assert(out@ =~= self.mem@.subrange(0, i + 1));
        }
        assert(out@ =~= self.mem@);
        out
    }

    pub fn rd32(&self, o: usize) -> (v: u32)
        requires
            o + 4 <= self@.len(),
        ensures
            v == get(self@, o as int, 4),
    {
        rd32(self.mem.as_slice(), o)
    }

    pub fn wr32(&mut self, o: usize, v: u32)
        requires
            o + 4 <= old(self)@.len(),
        ensures
            final(self)@ == put(old(self)@, o as int, 4, v as nat),
            old(self).wf() ==> final(self).wf(),
    {
        wr32(&mut self.mem, o, v);
    }

    pub fn rd64(&self, o: usize) -> (v: u64)
        requires
            o + 8 <= self@.len(),
        ensures
            v == get(self@, o as int, 8),
    {
        rd64(self.mem.as_slice(), o)
    }

    pub fn wr64(&mut self, o: usize, v: u64)
        requires
            o + 8 <= old(self)@.len(),
        ensures
            final(self)@ == put(old(self)@, o as int, 8, v as nat),
            old(self).wf() ==> final(self).wf(),
    {
        wr64(&mut self.mem, o, v);
    }

    pub fn rd16(&self, o: usize) -> (v: u16)
        requires
            o + 2 <= self@.len(),
        ensures
            v == get(self@, o as int, 2),
    {
        rd16(self.mem.as_slice(), o)
    }

    pub fn wr16(&mut self, o: usize, v: u16)
        requires
            o + 2 <= old(self)@.len(),
        ensures
            final(self)@ == put(old(self)@, o as int, 2, v as nat),
            old(self).wf() ==> final(self).wf(),
    {
        wr16(&mut self.mem, o, v);
    }

    pub fn rd8(&self, o: usize) -> (v: u8)
        requires
            o < self@.len(),
        ensures
            v == self@[o as int],
    {
        self.mem[o]
    }

    pub fn wr8(&mut self, o: usize, v: u8)
        requires
            o < old(self)@.len(),
        ensures
            final(self)@ == old(self)@.update(o as int, v),
            old(self).wf() ==> final(self).wf(),
    {
        self.mem[o] = v;
    }

    // --- pixel accessors (block pointer, buffer width, x, y) --------------

    /// The 32-bit pixel.
    pub open spec fn ct32(&self, bp: u32, bw: u32, x: u32, y: u32) -> nat {
        get(self@, off32(self@.len() as int, bp, bw, x, y, false), 4)
    }

    /// The 32-bit depth.
    pub open spec fn z32(&self, bp: u32, bw: u32, x: u32, y: u32) -> nat {
        get(self@, off32(self@.len() as int, bp, bw, x, y, true), 4)
    }

    /// The 16-bit pixel.
    pub open spec fn ct16(&self, bp: u32, bw: u32, x: u32, y: u32, psm: u32) -> nat {
        get(self@, off16(self@.len() as int, bp, bw, x, y, psm), 2)
    }

    /// The 8-bit texel.
    pub open spec fn t8(&self, bp: u32, bw: u32, x: u32, y: u32) -> u8 {
        self@[off8(self@.len() as int, bp, bw, x, y)]
    }

    /// The 4-bit texel.
    pub open spec fn t4(&self, bp: u32, bw: u32, x: u32, y: u32) -> u8 {
        nibble(self@[off4(self@.len() as int, bp, bw, x, y)], high4(bp, bw, x, y))
    }

    fn offset32(&self, bp: u32, bw: u32, x: u32, y: u32, z: bool) -> (o: usize)
        requires
            self.wf(),
        ensures
            o == off32(self@.len() as int, bp, bw, x, y, z),
            o + 4 <= self@.len(),
    {
        proof {
            lemma_fits(at32(bp, bw, x, y, z), self@.len() as int, 4);
        }
        addr32(bp, bw, x, y, z) % self.mem.len()
    }

    fn offset16(&self, bp: u32, bw: u32, x: u32, y: u32, psm: u32) -> (o: usize)
        requires
            self.wf(),
        ensures
            o == off16(self@.len() as int, bp, bw, x, y, psm),
            o + 2 <= self@.len(),
    {
        proof {
            lemma_fits(at16(bp, bw, x, y, psm & 8 != 0, psm & 0x30 != 0), self@.len() as int, 2);
        }
        addr16(bp, bw, x, y, psm & 8 != 0, psm & 0x30 != 0) % self.mem.len()
    }

    pub fn write_psmct32(&mut self, bp: u32, bw: u32, x: u32, y: u32, v: u32)
        requires
            old(self).wf(),
        ensures
            final(self).wf(),
            final(self)@ == put(old(self)@, off32(old(self)@.len() as int, bp, bw, x, y, false), 4, v as nat),
    {
        let o: usize = self.offset32(bp, bw, x, y, false);
        self.wr32(o, v);
    }

    /// Replace only the `mask` bits of a 32-bit pixel.
    pub fn write_psmct32_bits(&mut self, bp: u32, bw: u32, x: u32, y: u32, v: u32, mask: u32)
        requires
            old(self).wf(),
        ensures
            final(self).wf(),
            final(self)@ == put(
                old(self)@,
                off32(old(self)@.len() as int, bp, bw, x, y, false),
                4,
                ((old(self).ct32(bp, bw, x, y) as u32 & !mask) | (v & mask)) as nat,
            ),
    {
        let o: usize = self.offset32(bp, bw, x, y, false);
        let cur: u32 = self.rd32(o);
        self.wr32(o, (cur & !mask) | (v & mask));
    }

    pub fn read_psmct32(&self, bp: u32, bw: u32, x: u32, y: u32) -> (v: u32)
        requires
            self.wf(),
        ensures
            v == self.ct32(bp, bw, x, y),
    {
        self.rd32(self.offset32(bp, bw, x, y, false))
    }

    /// PSMZ32/PSMZ24 word (Z buffers use their own block order).
    pub fn write_psmz32(&mut self, bp: u32, bw: u32, x: u32, y: u32, v: u32)
        requires
            old(self).wf(),
        ensures
            final(self).wf(),
            final(self)@ == put(old(self)@, off32(old(self)@.len() as int, bp, bw, x, y, true), 4, v as nat),
    {
        let o: usize = self.offset32(bp, bw, x, y, true);
        self.wr32(o, v);
    }

    pub fn read_psmz32(&self, bp: u32, bw: u32, x: u32, y: u32) -> (v: u32)
        requires
            self.wf(),
        ensures
            v == self.z32(bp, bw, x, y),
    {
        self.rd32(self.offset32(bp, bw, x, y, true))
    }

    /// 16-bit pixel in any of PSMCT16/16S/PSMZ16/16S (`psm` picks the block
    /// order).
    pub fn write_psmct16(&mut self, bp: u32, bw: u32, x: u32, y: u32, psm: u32, v: u16)
        requires
            old(self).wf(),
        ensures
            final(self).wf(),
            final(self)@ == put(old(self)@, off16(old(self)@.len() as int, bp, bw, x, y, psm), 2, v as nat),
    {
        let o: usize = self.offset16(bp, bw, x, y, psm);
        self.wr16(o, v);
    }

    pub fn read_psmct16(&self, bp: u32, bw: u32, x: u32, y: u32, psm: u32) -> (v: u16)
        requires
            self.wf(),
        ensures
            v == self.ct16(bp, bw, x, y, psm),
    {
        self.rd16(self.offset16(bp, bw, x, y, psm))
    }

    pub fn write_psmt8(&mut self, bp: u32, bw: u32, x: u32, y: u32, v: u8)
        requires
            old(self).wf(),
        ensures
            final(self).wf(),
            final(self)@ == old(self)@.update(off8(old(self)@.len() as int, bp, bw, x, y), v),
    {
        let o: usize = addr8(bp, bw, x, y) % self.mem.len();
        self.wr8(o, v);
    }

    pub fn read_psmt8(&self, bp: u32, bw: u32, x: u32, y: u32) -> (v: u8)
        requires
            self.wf(),
        ensures
            v == self.t8(bp, bw, x, y),
    {
        self.rd8(addr8(bp, bw, x, y) % self.mem.len())
    }

    pub fn write_psmt4(&mut self, bp: u32, bw: u32, x: u32, y: u32, v: u8)
        requires
            old(self).wf(),
        ensures
            final(self).wf(),
            final(self)@ == old(self)@.update(
                off4(old(self)@.len() as int, bp, bw, x, y),
                with_nibble(old(self)@[off4(old(self)@.len() as int, bp, bw, x, y)], high4(bp, bw, x, y), v),
            ),
    {
        let idx: usize = addr4(bp, bw, x, y);
        let o: usize = idx / 2 % self.mem.len();
        let cur: u8 = self.rd8(o);
        if idx % 2 == 0 {
            self.wr8(o, (cur & 0xF0) | (v & 0xF));
        } else {
            self.wr8(o, (cur & 0x0F) | (v << 4));
        }
    }

    pub fn read_psmt4(&self, bp: u32, bw: u32, x: u32, y: u32) -> (v: u8)
        requires
            self.wf(),
        ensures
            v == self.t4(bp, bw, x, y),
    {
        let idx: usize = addr4(bp, bw, x, y);
        let b: u8 = self.rd8(idx / 2 % self.mem.len());
        if idx % 2 == 0 {
            b & 0xF
        } else {
            b >> 4
        }
    }
}

proof fn lemma_pow2_multiple_of_8(n: int)
    requires
        is_pow2(n),
        n >= 8,
    ensures
        n % 8 == 0,
{
    let k = choose|k: nat| n == vstd::arithmetic::power2::pow2(k);
    vstd::arithmetic::power2::lemma2_to64();
    if k < 3 {
        assert(k == 0 || k == 1 || k == 2);
        assert(false);
    }
    vstd::arithmetic::power2::lemma_pow2_adds(3, (k - 3) as nat);
    let m = vstd::arithmetic::power2::pow2((k - 3) as nat);
    assert(n == 8 * m);
}

/// What a pixel write stored is what a read of that pixel gives back, in
/// every format.
pub proof fn law_pixel_read_after_write(mem: Seq<u8>, bp: u32, bw: u32, x: u32, y: u32, psm: u32, z: bool, v32: u32, v16: u16, v4: u8)
    requires
        mem.len() >= 8,
        mem.len() % 8 == 0,
    ensures
        ({
            let o = off32(mem.len() as int, bp, bw, x, y, z);
            get(put(mem, o, 4, v32 as nat), o, 4) == v32
        }),
        ({
            let o = off16(mem.len() as int, bp, bw, x, y, psm);
            get(put(mem, o, 2, v16 as nat), o, 2) == v16
        }),
        ({
            let o = off4(mem.len() as int, bp, bw, x, y);
            let h = high4(bp, bw, x, y);
            nibble(mem.update(o, with_nibble(mem[o], h, v4))[o], h) == v4 & 0xF
        }),
{
    lemma_pow256_values();
    let len = mem.len() as int;
    lemma_fits(at32(bp, bw, x, y, z), len, 4);
    law_get_after_put(mem, off32(len, bp, bw, x, y, z), 4, v32 as nat);
    lemma_fits(at16(bp, bw, x, y, psm & 8 != 0, psm & 0x30 != 0), len, 2);
    law_get_after_put(mem, off16(len, bp, bw, x, y, psm), 2, v16 as nat);
    lemma_fits(at4(bp, bw, x, y) / 2, len, 1);
    lemma_nibble(mem[off4(len, bp, bw, x, y)], v4, high4(bp, bw, x, y));
}

} // verus!
