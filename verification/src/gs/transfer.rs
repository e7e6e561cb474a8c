//! Pixels moving into and inside local memory: IMAGE uploads, LOCAL->LOCAL
//! copies, and the internal-2x overlay that mirrors them.

use vstd::prelude::*;
use crate::bytes::{get, put};
use super::canvas::{high4, lemma_offsets, nibble, off16, off32, off4, off8, with_nibble, Canvas};

verus! {

// Pixel storage formats.
pub const PSMCT32: u32 = 0x00;
pub const PSMCT24: u32 = 0x01;
pub const PSMCT16: u32 = 0x02;
pub const PSMCT16S: u32 = 0x0A;
pub const PSMT8: u32 = 0x13;
pub const PSMT4: u32 = 0x14;
pub const PSMT8H: u32 = 0x1B;
pub const PSMT4HL: u32 = 0x24;
pub const PSMT4HH: u32 = 0x2C;
pub const PSMZ32: u32 = 0x30;
pub const PSMZ24: u32 = 0x31;
pub const PSMZ16: u32 = 0x32;
pub const PSMZ16S: u32 = 0x3A;

pub open spec fn is_16bit(psm: u32) -> bool {
    psm == PSMCT16 || psm == PSMCT16S || psm == PSMZ16 || psm == PSMZ16S
}

/// Formats that uploads know.
pub open spec fn uploads(psm: u32) -> bool {
    psm == PSMCT32 || psm == PSMZ32 || psm == PSMCT24 || is_16bit(psm) || psm == PSMT8 || psm == PSMT4 || psm == PSMT8H
        || psm == PSMT4HL || psm == PSMT4HH
}

/// Formats that copies and the overlay mirror know.
pub open spec fn copies(psm: u32) -> bool {
    psm == PSMCT32 || psm == PSMCT24 || psm == PSMZ32 || psm == PSMZ24 || is_16bit(psm) || psm == PSMT8 || psm == PSMT4
}

/// A buffer of pixels: format, block pointer and width.
#[derive(Clone, Copy)]
pub struct Surface {
    pub psm: u32,
    pub bp: u32,
    pub bw: u32,
}

impl Surface {
    /// The same surface in the overlay's doubled coordinate space.
    pub open spec fn doubled(self) -> Surface {
        Surface { psm: self.psm, bp: (self.bp * 4) as u32, bw: (self.bw * 2) as u32 }
    }

    pub open spec fn wf(self) -> bool {
        self.bp < 0x4000 && self.bw < 0x40
    }
}

/// Local memory with the pixel of `s` at `(x, y)` set from `px`. The formats
/// that keep an index in the upper bits of a 32-bit pixel share its storage
/// and leave its colour bits alone.
pub open spec fn with_px(mem: Seq<u8>, s: Surface, x: u32, y: u32, px: u32) -> Seq<u8> {
    let len = mem.len() as int;
    let o32 = off32(len, s.bp, s.bw, x, y, false);
    if s.psm == PSMCT32 || s.psm == PSMCT24 {
        put(mem, o32, 4, px as nat)
    } else if s.psm == PSMZ32 || s.psm == PSMZ24 {
        put(mem, off32(len, s.bp, s.bw, x, y, true), 4, px as nat)
    } else if is_16bit(s.psm) {
        put(mem, off16(len, s.bp, s.bw, x, y, s.psm), 2, (px as u16) as nat)
    } else if s.psm == PSMT8 {
        mem.update(off8(len, s.bp, s.bw, x, y), px as u8)
    } else if s.psm == PSMT4 {
        let o = off4(len, s.bp, s.bw, x, y);
        mem.update(o, with_nibble(mem[o], high4(s.bp, s.bw, x, y), px as u8))
    } else if s.psm == PSMT8H {
        put(mem, o32, 4, merge(get(mem, o32, 4), px << 24, 0xFF00_0000))
    } else if s.psm == PSMT4HL {
        put(mem, o32, 4, merge(get(mem, o32, 4), px << 24, 0x0F00_0000))
    } else if s.psm == PSMT4HH {
        put(mem, o32, 4, merge(get(mem, o32, 4), px << 28, 0xF000_0000))
    } else {
        mem
    }
}

/// `v` in the `mask` bits, `cur` in the others.
pub open spec fn merge(cur: nat, v: u32, mask: u32) -> nat {
    ((cur as u32 & !mask) | (v & mask)) as nat
}

/// The pixel of `s` at `(x, y)`, for the formats that copies know.
pub open spec fn px_at(mem: Seq<u8>, s: Surface, x: u32, y: u32) -> u32 {
    let len = mem.len() as int;
    if s.psm == PSMCT32 || s.psm == PSMCT24 {
        get(mem, off32(len, s.bp, s.bw, x, y, false), 4) as u32
    } else if s.psm == PSMZ32 || s.psm == PSMZ24 {
        get(mem, off32(len, s.bp, s.bw, x, y, true), 4) as u32
    } else if is_16bit(s.psm) {
        get(mem, off16(len, s.bp, s.bw, x, y, s.psm), 2) as u32
    } else if s.psm == PSMT8 {
        mem[off8(len, s.bp, s.bw, x, y)] as u32
    } else if s.psm == PSMT4 {
        nibble(mem[off4(len, s.bp, s.bw, x, y)], high4(s.bp, s.bw, x, y)) as u32
    } else {
        0
    }
}

/// A pixel store keeps the size of memory.
pub proof fn lemma_with_px_len(mem: Seq<u8>, s: Surface, x: u32, y: u32, px: u32)
    requires
        mem.len() > 0,
    ensures
        with_px(mem, s, x, y, px).len() == mem.len(),
{
    lemma_offsets(mem.len() as int, s.bp, s.bw, x, y);
}

pub fn put_pixel(canvas: &mut Canvas, s: Surface, x: u32, y: u32, px: u32)
    requires
        old(canvas).wf(),
    ensures
        final(canvas).wf(),
        final(canvas)@ == with_px(old(canvas)@, s, x, y, px),
        final(canvas)@.len() == old(canvas)@.len(),
{
    proof {
        canvas.lemma_wf();
        lemma_with_px_len(canvas@, s, x, y, px);
    }
    if s.psm == PSMCT32 || s.psm == PSMCT24 {
        canvas.write_psmct32(s.bp, s.bw, x, y, px);
    } else if s.psm == PSMZ32 || s.psm == PSMZ24 {
        canvas.write_psmz32(s.bp, s.bw, x, y, px);
    } else if s.psm == PSMCT16 || s.psm == PSMCT16S || s.psm == PSMZ16 || s.psm == PSMZ16S {
        canvas.write_psmct16(s.bp, s.bw, x, y, s.psm, low16(px));
    } else if s.psm == PSMT8 {
        canvas.write_psmt8(s.bp, s.bw, x, y, low8(px));
    } else if s.psm == PSMT4 {
        canvas.write_psmt4(s.bp, s.bw, x, y, low8(px));
    } else if s.psm == PSMT8H {
        canvas.write_psmct32_bits(s.bp, s.bw, x, y, px << 24, 0xFF00_0000);
    } else if s.psm == PSMT4HL {
        canvas.write_psmct32_bits(s.bp, s.bw, x, y, px << 24, 0x0F00_0000);
    } else if s.psm == PSMT4HH {
        canvas.write_psmct32_bits(s.bp, s.bw, x, y, px << 28, 0xF000_0000);
    }
}

#[verifier::truncate]
fn low16(v: u32) -> (r: u16)
    ensures
        r == v as u16,
{
    v as u16
}

#[verifier::truncate]
fn low8(v: u32) -> (r: u8)
    ensures
        r == v as u8,
{
    v as u8
}

pub fn get_pixel(canvas: &Canvas, s: Surface, x: u32, y: u32) -> (px: u32)
    requires
        canvas.wf(),
    ensures
        px == px_at(canvas@, s, x, y),
{
    if s.psm == PSMCT32 || s.psm == PSMCT24 {
        canvas.read_psmct32(s.bp, s.bw, x, y)
    } else if s.psm == PSMZ32 || s.psm == PSMZ24 {
        canvas.read_psmz32(s.bp, s.bw, x, y)
    } else if s.psm == PSMCT16 || s.psm == PSMCT16S || s.psm == PSMZ16 || s.psm == PSMZ16S {
        canvas.read_psmct16(s.bp, s.bw, x, y, s.psm) as u32
    } else if s.psm == PSMT8 {
        canvas.read_psmt8(s.bp, s.bw, x, y) as u32
    } else if s.psm == PSMT4 {
        canvas.read_psmt4(s.bp, s.bw, x, y) as u32
    } else {
        0
    }
}

// --- the overlay ----------------------------------------------------------

/// The overlay with the pixel at `(x, y)` stored as a 2x2 duplicate.
pub open spec fn with_dup(mem: Seq<u8>, s: Surface, x: u32, y: u32, px: u32) -> Seq<u8> {
    let d = s.doubled();
    let (x2, y2) = ((2 * x) as u32, (2 * y) as u32);
    let (x3, y3) = ((2 * x + 1) as u32, (2 * y + 1) as u32);
    with_px(with_px(with_px(with_px(mem, d, x2, y2, px), d, x3, y2, px), d, x2, y3, px), d, x3, y3, px)
}

pub fn put_dup(canvas: &mut Canvas, s: Surface, x: u32, y: u32, px: u32)
    requires
        old(canvas).wf(),
        s.wf(),
        x < 0x10000,
        y < 0x10000,
    ensures
        final(canvas).wf(),
        final(canvas)@ == with_dup(old(canvas)@, s, x, y, px),
        final(canvas)@.len() == old(canvas)@.len(),
{
    let d = Surface { psm: s.psm, bp: s.bp * 4, bw: s.bw * 2 };
    put_pixel(canvas, d, 2 * x, 2 * y, px);
    put_pixel(canvas, d, 2 * x + 1, 2 * y, px);
    put_pixel(canvas, d, 2 * x, 2 * y + 1, px);
    put_pixel(canvas, d, 2 * x + 1, 2 * y + 1, px);
}

/// A rectangle of pixels.
#[derive(Clone, Copy)]
pub struct Rect {
    pub x: u32,
    pub y: u32,
    pub w: u32,
    pub h: u32,
}

impl Rect {
    pub open spec fn wf(self) -> bool {
        self.x < 0x4000 && self.y < 0x4000 && self.w < 0x4000 && self.h < 0x4000
    }

    /// Column of pixel `k` in raster order.
    pub open spec fn col(self, k: int) -> u32 {
        (self.x + k % self.w as int) as u32
    }

    /// Row of pixel `k` in raster order.
    pub open spec fn row(self, k: int) -> u32 {
        (self.y + k / self.w as int) as u32
    }
}

/// The overlay `over` after the first `n` pixels of the rectangle of local
/// memory have been duplicated into it.
pub open spec fn mirrored(over: Seq<u8>, mem: Seq<u8>, s: Surface, r: Rect, n: int) -> Seq<u8>
    decreases n,
{
    if n <= 0 {
        over
    } else {
        let k = n - 1;
        with_dup(mirrored(over, mem, s, r, k), s, r.col(k), r.row(k), px_at(mem, s, r.col(k), r.row(k)))
    }
}

proof fn lemma_raster(r: Rect, i: int, j: int)
    requires
        0 <= i,
        0 <= j < r.w,
    ensures
        (i * r.w + j) % (r.w as int) == j,
        (i * r.w + j) / (r.w as int) == i,
        i * r.w + r.w == (i + 1) * r.w,
{
    vstd::arithmetic::div_mod::lemma_fundamental_div_mod_converse(i * r.w + j, r.w as int, i, j);
    assert(i * r.w + r.w == (i + 1) * r.w) by (nonlinear_arith);
}

/// Mirror a just-written rect of local memory into the overlay as 2x2
/// duplicates; `s` names the destination. Formats that copies do not know
/// are left alone.
pub fn mirror_upload_rect(over: &mut Canvas, canvas: &Canvas, s: Surface, r: Rect)
    requires
        old(over).wf(),
        canvas.wf(),
        s.wf(),
        r.wf(),
    ensures
        final(over).wf(),
        final(over)@ == (if copies(s.psm) {
            mirrored(old(over)@, canvas@, s, r, r.w * r.h)
        } else {
            old(over)@
        }),
        final(over)@.len() == old(over)@.len(),
{
    if !is_copied(s.psm) {
        return;
    }
    assert(0 * r.w == 0);
    for i in 0..r.h
        invariant
            over.wf(),
            canvas.wf(),
            s.wf(),
            r.wf(),
            over@.len() == old(over)@.len(),
            over@ == mirrored(old(over)@, canvas@, s, r, i * r.w),
    {
        for j in 0..r.w
            invariant
                over.wf(),
                canvas.wf(),
                s.wf(),
                r.wf(),
                0 <= i < r.h,
                over@.len() == old(over)@.len(),
                over@ == mirrored(old(over)@, canvas@, s, r, i * r.w + j),
        {
            proof {
                lemma_raster(r, i as int, j as int);
                assert(0 <= i * r.w) by (nonlinear_arith);
            }
            let px: u32 = get_pixel(canvas, s, r.x + j, r.y + i);
            put_dup(over, s, r.x + j, r.y + i, px);
        }
        proof {
            assert(i * r.w + r.w == (i + 1) * r.w) by (nonlinear_arith);
        }
    }
    assert(r.h * r.w == r.w * r.h) by (nonlinear_arith);
}

fn is_copied(psm: u32) -> (r: bool)
    ensures
        r == copies(psm),
{
    psm == PSMCT32 || psm == PSMCT24 || psm == PSMZ32 || psm == PSMZ24 || psm == PSMCT16 || psm == PSMCT16S || psm
        == PSMZ16 || psm == PSMZ16S || psm == PSMT8 || psm == PSMT4
}

/// Local memory after the first `n` pixels, in raster order, have been
/// copied from `src` at `(sx, sy)` to the rectangle `r` of `dst`.
pub open spec fn copied(mem: Seq<u8>, src: Surface, sx: u32, sy: u32, dst: Surface, r: Rect, n: int) -> Seq<u8>
    decreases n,
{
    if n <= 0 {
        mem
    } else {
        let k = n - 1;
        let m = copied(mem, src, sx, sy, dst, r, k);
        let x = (sx + k % r.w as int) as u32;
        let y = (sy + k / r.w as int) as u32;
        with_px(m, dst, r.col(k), r.row(k), px_at(m, src, x, y))
    }
}

/// LOCAL->LOCAL copy of one format, used by the kernel to move fonts
/// around. Formats that copies do not know are left alone.
pub fn copy_rect(canvas: &mut Canvas, src: Surface, sx: u32, sy: u32, dst: Surface, r: Rect)
    requires
        old(canvas).wf(),
        src.psm == dst.psm,
        r.wf(),
        sx < 0x4000,
        sy < 0x4000,
    ensures
        final(canvas).wf(),
        final(canvas)@.len() == old(canvas)@.len(),
        final(canvas)@ == (if copies(src.psm) {
            copied(old(canvas)@, src, sx, sy, dst, r, r.w * r.h)
        } else {
            old(canvas)@
        }),
{
    if !is_copied(src.psm) {
        return;
    }
    assert(0 * r.w == 0);
    for i in 0..r.h
        invariant
            canvas.wf(),
            r.wf(),
            sx < 0x4000,
            sy < 0x4000,
            canvas@.len() == old(canvas)@.len(),
            canvas@ == copied(old(canvas)@, src, sx, sy, dst, r, i * r.w),
    {
        for j in 0..r.w
            invariant
                canvas.wf(),
                r.wf(),
                0 <= i < r.h,
                sx < 0x4000,
                sy < 0x4000,
                canvas@.len() == old(canvas)@.len(),
                canvas@ == copied(old(canvas)@, src, sx, sy, dst, r, i * r.w + j),
        {
            proof {
                lemma_raster(r, i as int, j as int);
                assert(0 <= i * r.w) by (nonlinear_arith);
            }
            let px: u32 = get_pixel(canvas, src, sx + j, sy + i);
            put_pixel(canvas, dst, r.x + j, r.y + i, px);
        }
        proof {
            assert(i * r.w + r.w == (i + 1) * r.w) by (nonlinear_arith);
        }
    }
    assert(r.h * r.w == r.w * r.h) by (nonlinear_arith);
}

} // verus!
