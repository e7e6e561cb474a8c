//! Texels: wrapping, palettes, and the rows that the sprite loops fetch.

use vstd::prelude::*;
use crate::bits::{bit, bits};
use crate::gs::canvas::Canvas;
use crate::gs::transfer::{
    PSMCT16, PSMCT16S, PSMCT24, PSMCT32, PSMT4, PSMT4HH, PSMT4HL, PSMT8, PSMT8H, PSMZ16, PSMZ16S, PSMZ24, PSMZ32,
};
use super::batch::{palette_blocks, Batch};
use super::pipe::{tex_size, TexInfo};
use super::pixel::{bilerp, bilerp_rgba, rgba};

verus! {

/// A texel coordinate after CLAMP: repeat, clamp to the texture, clamp to a
/// region, or repeat a region. Texture sizes are powers of two.
pub open spec fn wrapped(c: i32, mode: u64, size: int, min: i32, max: i32) -> int {
    if mode == 0 {
        c as int % size
    } else if mode == 1 {
        if c < 0 {
            0
        } else if c >= size {
            size - 1
        } else {
            c as int
        }
    } else if mode == 2 {
        let hi = if max > min {
            max
        } else {
            min
        };
        if c < min {
            min as int
        } else if c > hi {
            hi as int
        } else {
            c as int
        }
    } else {
        ((c & min) | max) as int
    }
}

proof fn lemma_region_repeat(c: i32, min: i32, max: i32)
    by (bit_vector)
    requires
        0 <= min < 0x400,
        0 <= max < 0x400,
    ensures
        0 <= ((c & min) | max) < 0x400,
{
}

pub fn wrap(c: i32, mode: u64, size: i32, min: i32, max: i32) -> (r: i32)
    requires
        exists|n: u64| size == tex_size(n),
        0 <= min < 0x400,
        0 <= max < 0x400,
    ensures
        r == wrapped(c, mode, size as int, min, max),
        0 <= r < 0x400,
{
    match mode {
        0 => {
            // 2^32 is a multiple of every texture size.
            let up: u64 = (c as i64 + 0x1_0000_0000) as u64;
            let r: u64 = up % size as u64;
            proof {
                lemma_repeat(c as int, size as int);
            }
            r as i32
        },
        1 => {
            if c < 0 {
                0
            } else if c >= size {
                size - 1
            } else {
                c
            }
        },
        2 => {
            let hi: i32 = if max > min { max } else { min };
            if c < min {
                min
            } else if c > hi {
                hi
            } else {
                c
            }
        },
        _ => {
            proof {
                lemma_region_repeat(c, min, max);
            }
            (c & min) | max
        },
    }
}

proof fn lemma_repeat(c: int, size: int)
    requires
        exists|n: u64| size == tex_size(n),
    ensures
        (c + 0x1_0000_0000) % size == c % size,
        0 <= c % size < size <= 1024,
{
    let n = choose|n: u64| size == tex_size(n);
    let q = if n == 0 {
        0x1_0000_0000int
    } else if n == 1 {
        0x8000_0000
    } else if n == 2 {
        0x4000_0000
    } else if n == 3 {
        0x2000_0000
    } else if n == 4 {
        0x1000_0000
    } else if n == 5 {
        0x800_0000
    } else if n == 6 {
        0x400_0000
    } else if n == 7 {
        0x200_0000
    } else if n == 8 {
        0x100_0000
    } else if n == 9 {
        0x80_0000
    } else {
        0x40_0000
    };
    assert(size * q == 0x1_0000_0000);
    vstd::arithmetic::div_mod::lemma_mod_multiples_vanish(q, c, size);
    vstd::arithmetic::div_mod::lemma_mod_bound(c, size);
}

/// Whether [`wrap`] is the identity over the whole span `u_lo..=u_hi`.
pub fn wrap_identity(u_lo: i32, u_hi: i32, ti: &TexInfo) -> (r: bool)
    requires
        ti.wf(),
    ensures
        r ==> forall|u: i32| u_lo <= u <= u_hi ==> #[trigger] wrapped(u, ti.wms, ti.tw as int, ti.minu, ti.maxu) == u,
        r == (if ti.wms <= 1 {
            u_lo >= 0 && u_hi < ti.tw
        } else {
            ti.wms == 2 && ti.minu <= ti.maxu && u_lo >= ti.minu && u_hi <= ti.maxu
        }),
{
    match ti.wms {
        0 | 1 => {
            let r = u_lo >= 0 && u_hi < ti.tw as i32;
            proof {
                if r && ti.wms == 0 {
                    assert forall|u: i32| u_lo <= u <= u_hi implies #[trigger] wrapped(
                        u,
                        ti.wms,
                        ti.tw as int,
                        ti.minu,
                        ti.maxu,
                    ) == u by {
                        vstd::arithmetic::div_mod::lemma_small_mod(u as nat, ti.tw as nat);
                    }
                }
            }
            r
        },
        2 => ti.minu <= ti.maxu && u_lo >= ti.minu && u_hi <= ti.maxu,
        _ => false,
    }
}

/// A 16-bit texel as RGBA8: 5-bit channels scale by 8, alpha is TA1 for a
/// set top bit, TA0 otherwise, and 0 for an all-zero texel when AEM is on.
pub open spec fn expanded16(px: u16, texa: u64) -> int {
    let a = if px >= 0x8000 {
        bits(texa, 32, 0xFF)
    } else if bit(texa, 15) && px == 0 {
        0
    } else {
        bits(texa, 0, 0xFF)
    };
    rgba(8 * (px as int % 32), 8 * (px as int / 32 % 32), 8 * (px as int / 1024 % 32), a as int)
}

/// 16-bit -> 32-bit expansion using TEXA.
pub fn expand16(px: u16, texa: u64) -> (r: u32)
    ensures
        r == expanded16(px, texa),
{
    let p: u32 = px as u32;
    let a: u64 = if px >= 0x8000 {
        bits(texa, 32, 0xFF)
    } else if bit(texa, 15) && px == 0 {
        0
    } else {
        bits(texa, 0, 0xFF)
    };
    8 * (p % 32) + 0x100 * (8 * (p / 32 % 32)) + 0x1_0000 * (8 * (p / 1024 % 32)) + 0x100_0000 * a as u32
}

/// A 24-bit texel: alpha is TA0.
pub open spec fn expanded24(px: u32, texa: u64) -> int {
    px as int % 0x100_0000 + 0x100_0000 * bits(texa, 0, 0xFF)
}

fn expand24(px: u32, texa: u64) -> (r: u32)
    ensures
        r == expanded24(px, texa),
{
    px % 0x100_0000 + 0x100_0000 * bits(texa, 0, 0xFF) as u32
}

/// Where palette entry `e` sits in the palette image. CSM1 packs the CLUT
/// as a 16x16 image whose entries sit in 8x2-entry tiles: a linear layout
/// with bits 3 and 4 of the entry number swapped. CSM2 is a linear row.
pub open spec fn palette_pos(csm: u64, e: u32) -> (u32, u32) {
    if csm == 0 {
        let s = (e & 0xE7) | ((e & 0x08) << 1) | ((e & 0x10) >> 1);
        (s & 0xF, s >> 4)
    } else {
        (e & 0xFF, e >> 8)
    }
}

/// Palette entry `e` (index plus CSA offset) in local memory, as RGBA8.
pub open spec fn palette_entry(c: Canvas, tex0: u64, texa: u64, e: u32) -> u32 {
    let cbp = bits(tex0, 37, 0x3FFF) as u32;
    let cpsm = bits(tex0, 51, 0xF);
    let (x, y) = palette_pos(bits(tex0, 55, 1), e);
    if cpsm == 0 {
        c.ct32(cbp, 1, x, y) as u32
    } else {
        expanded16(
            c.ct16(
                cbp,
                1,
                x,
                y,
                if cpsm == 0xA {
                    PSMCT16S
                } else {
                    PSMCT16
                },
            ) as u16,
            texa,
        ) as u32
    }
}

/// Read palette entry `e` (index plus CSA offset) from VRAM.
pub fn clut_lookup(canvas: &Canvas, tex0: u64, texa: u64, e: u32) -> (v: u32)
    requires
        canvas.wf(),
    ensures
        v == palette_entry(*canvas, tex0, texa, e),
{
    let cbp: u32 = bits(tex0, 37, 0x3FFF) as u32;
    let cpsm: u64 = bits(tex0, 51, 0xF);
    let csm: u64 = bits(tex0, 55, 1);
    let (x, y) = if csm == 0 {
        let s: u32 = (e & 0xE7) | ((e & 0x08) << 1) | ((e & 0x10) >> 1);
        (s & 0xF, s >> 4)
    } else {
        (e & 0xFF, e >> 8)
    };
    if cpsm == 0 {
        canvas.read_psmct32(cbp, 1, x, y)
    } else {
        let psm: u32 = if cpsm == 0xA { PSMCT16S } else { PSMCT16 };
        expand16(canvas.read_psmct16(cbp, 1, x, y, psm), texa)
    }
}

/// One RGBA8 texel at integer texel coordinates, after CLAMP wrapping;
/// yellow for formats that are no textures.
pub open spec fn texel_at(c: Canvas, clut: Seq<u32>, ti: TexInfo, u: i32, v: i32) -> u32 {
    let x = wrapped(u, ti.wms, ti.tw as int, ti.minu, ti.maxu) as u32;
    let y = wrapped(v, ti.wmt, ti.th as int, ti.minv, ti.maxv) as u32;
    let px = c.ct32(ti.tbp, ti.tbw, x, y) as u32;
    let base = ti.clut_base as int;
    if ti.psm == PSMCT32 {
        px
    } else if ti.psm == PSMCT24 {
        expanded24(px, ti.texa) as u32
    } else if ti.psm == PSMCT16 || ti.psm == PSMCT16S || ti.psm == PSMZ16 || ti.psm == PSMZ16S {
        expanded16(c.ct16(ti.tbp, ti.tbw, x, y, ti.psm) as u16, ti.texa) as u32
    } else if ti.psm == PSMZ32 {
        c.z32(ti.tbp, ti.tbw, x, y) as u32
    } else if ti.psm == PSMZ24 {
        expanded24(c.z32(ti.tbp, ti.tbw, x, y) as u32, ti.texa) as u32
    } else if ti.psm == PSMT8 {
        clut[c.t8(ti.tbp, ti.tbw, x, y) as int]
    } else if ti.psm == PSMT4 {
        clut[c.t4(ti.tbp, ti.tbw, x, y) + base]
    } else if ti.psm == PSMT8H {
        clut[px as int / 0x100_0000]
    } else if ti.psm == PSMT4HL {
        clut[px as int / 0x100_0000 % 16 + base]
    } else if ti.psm == PSMT4HH {
        clut[px as int / 0x1000_0000 + base]
    } else {
        0xFF00_FFFF
    }
}

proof fn lemma_nibble_bound(b: u8)
    by (bit_vector)
    ensures
        b & 0xF <= 15,
        b >> 4 <= 15,
{
}

/// One RGBA8 texel; `clut` is the palette block of 512 entries.
pub fn texel(canvas: &Canvas, clut: &[u32], ti: &TexInfo, u: i32, v: i32) -> (t: u32)
    requires
        canvas.wf(),
        ti.wf(),
        clut@.len() == 512,
    ensures
        t == texel_at(*canvas, clut@, *ti, u, v),
{
    let x: u32 = wrap(u, ti.wms, ti.tw as i32, ti.minu, ti.maxu) as u32;
    let y: u32 = wrap(v, ti.wmt, ti.th as i32, ti.minv, ti.maxv) as u32;
    if ti.psm == PSMCT32 {
        canvas.read_psmct32(ti.tbp, ti.tbw, x, y)
    } else if ti.psm == PSMCT24 {
        expand24(canvas.read_psmct32(ti.tbp, ti.tbw, x, y), ti.texa)
    } else if ti.psm == PSMCT16 || ti.psm == PSMCT16S || ti.psm == PSMZ16 || ti.psm == PSMZ16S {
        expand16(canvas.read_psmct16(ti.tbp, ti.tbw, x, y, ti.psm), ti.texa)
    } else if ti.psm == PSMZ32 {
        canvas.read_psmz32(ti.tbp, ti.tbw, x, y)
    } else if ti.psm == PSMZ24 {
        expand24(canvas.read_psmz32(ti.tbp, ti.tbw, x, y), ti.texa)
    } else if ti.psm == PSMT8 {
        clut[canvas.read_psmt8(ti.tbp, ti.tbw, x, y) as usize]
    } else if ti.psm == PSMT4 {
        let i: u8 = canvas.read_psmt4(ti.tbp, ti.tbw, x, y);
        proof {
            use_nibble(*canvas, *ti, x, y);
        }
        clut[i as usize + ti.clut_base]
    } else if ti.psm == PSMT8H {
        clut[(canvas.read_psmct32(ti.tbp, ti.tbw, x, y) / 0x100_0000) as usize]
    } else if ti.psm == PSMT4HL {
        clut[(canvas.read_psmct32(ti.tbp, ti.tbw, x, y) / 0x100_0000 % 16) as usize + ti.clut_base]
    } else if ti.psm == PSMT4HH {
        clut[(canvas.read_psmct32(ti.tbp, ti.tbw, x, y) / 0x1000_0000) as usize + ti.clut_base]
    } else {
        0xFF00_FFFF
    }
}

proof fn use_nibble(c: Canvas, ti: TexInfo, x: u32, y: u32)
    ensures
        c.t4(ti.tbp, ti.tbw, x, y) <= 15,
{
    lemma_nibble_bound(c@[crate::gs::canvas::off4(c@.len() as int, ti.tbp, ti.tbw, x, y)]);
}

/// A texture sample whose footprint starts at texel `(x, y)`, with filter
/// weights in 1/256: the texel itself where nothing is blended in.
pub open spec fn sampled(c: Canvas, clut: Seq<u32>, ti: TexInfo, x: i32, y: i32, wx: u32, wy: u32) -> int {
    if wx == 0 && wy == 0 {
        texel_at(c, clut, ti, x, y) as int
    } else {
        bilerp(
            texel_at(c, clut, ti, x, y),
            texel_at(c, clut, ti, (x + 1) as i32, y),
            texel_at(c, clut, ti, x, (y + 1) as i32),
            texel_at(c, clut, ti, (x + 1) as i32, (y + 1) as i32),
            wx as int,
            wy as int,
        )
    }
}

/// The texel at `(x, y)`, or the blend of the 2x2 texels from there on.
pub fn sample(canvas: &Canvas, clut: &[u32], ti: &TexInfo, x: i32, y: i32, wx: u32, wy: u32) -> (t: u32)
    requires
        canvas.wf(),
        ti.wf(),
        clut@.len() == 512,
        x < i32::MAX,
        y < i32::MAX,
        wx <= 256,
        wy <= 256,
    ensures
        t == sampled(*canvas, clut@, *ti, x, y, wx, wy),
{
    if wx == 0 && wy == 0 {
        return texel(canvas, clut, ti, x, y);
    }
    let t00: u32 = texel(canvas, clut, ti, x, y);
    let t10: u32 = texel(canvas, clut, ti, x + 1, y);
    let t01: u32 = texel(canvas, clut, ti, x, y + 1);
    let t11: u32 = texel(canvas, clut, ti, x + 1, y + 1);
    bilerp_rgba(t00, t10, t01, t11, wx, wy)
}

// --- decoded rows ---------------------------------------------------------------

/// Texels `u_lo..=u_hi` of texture row `y`, wrapped or clamped like any
/// sample.
pub fn tex_row(canvas: &Canvas, clut: &[u32], ti: &TexInfo, y: i32, u_lo: i32, u_hi: i32) -> (row: Vec<u32>)
    requires
        canvas.wf(),
        ti.wf(),
        clut@.len() == 512,
        u_lo <= u_hi,
        u_hi - u_lo < 4096,
    ensures
        row@ == Seq::new((u_hi - u_lo + 1) as nat, |i: int| texel_at(*canvas, clut@, *ti, (u_lo + i) as i32, y)),
{
    let mut row: Vec<u32> = Vec::new();
    let n: i32 = u_hi - u_lo + 1;
    let ghost whole = Seq::new((u_hi - u_lo + 1) as nat, |i: int| texel_at(*canvas, clut@, *ti, (u_lo + i) as i32, y));
    for i in 0..n
        invariant
            canvas.wf(),
            ti.wf(),
            clut@.len() == 512,
            n == u_hi - u_lo + 1,
            n <= 4096,
            whole == Seq::new((u_hi - u_lo + 1) as nat, |i: int| texel_at(*canvas, clut@, *ti, (u_lo + i) as i32, y)),
            row@ == whole.subrange(0, i as int),
    {
        let t: u32 = texel(canvas, clut, ti, u_lo + i, y);
        row.push(t);
        assert(row@ =~= whole.subrange(0, i + 1));
    }
    assert(row@ =~= whole);
    row
}

/// One decoded texture row: texels `u_lo..` of row `y` of the texture set
/// up by `tex0`. Valid within one primitive only.
pub struct TexRow {
    pub tex0: u64,
    pub y: i32,
    pub u_lo: i32,
    pub data: Vec<u32>,
}

impl TexRow {
    /// What the row holds is what sampling would give.
    pub open spec fn holds(&self, c: Canvas, clut: Seq<u32>, ti: TexInfo) -> bool {
        &&& self.u_lo + self.data@.len() <= i32::MAX
        &&& self.tex0 == ti.tex0 ==> forall|i: int|
            0 <= i < self.data@.len() ==> #[trigger] self.data@[i] == texel_at(c, clut, ti, (self.u_lo + i) as i32, self.y)
    }

    /// The texel at `(u, y)` through the cache: refilled with the 32 texels
    /// around a miss.
    pub fn cached_texel(&mut self, canvas: &Canvas, clut: &[u32], ti: &TexInfo, u: i32, y: i32) -> (t: u32)
        requires
            canvas.wf(),
            ti.wf(),
            clut@.len() == 512,
            old(self).holds(*canvas, clut@, *ti),
            -0x4000_0000 <= u <= 0x4000_0000,
        ensures
            t == texel_at(*canvas, clut@, *ti, u, y),
            final(self).holds(*canvas, clut@, *ti),
    {
        if self.tex0 == ti.tex0 && self.y == y && u >= self.u_lo {
            let i: usize = (u as i64 - self.u_lo as i64) as usize;
            if i < self.data.len() {
                assert(self.data@[i as int] == texel_at(*canvas, clut@, *ti, (self.u_lo + i) as i32, self.y));
                return self.data[i];
            }
        }
        self.data = tex_row(canvas, clut, ti, y, u - 8, u + 23);
        self.tex0 = ti.tex0;
        self.y = y;
        self.u_lo = u - 8;
        self.data[8]
    }
}

// --- sprite rows ------------------------------------------------------------------

/// The 32.32 fixed-point texel coordinate of pixel `k`: the taps of a
/// bilinear sample sit around `u - 0.5`.
pub open spec fn step_u(ua: int, du: int, k: int, bilinear: bool) -> int {
    ua + k * du - (if bilinear {
        0x8000_0000int
    } else {
        0
    })
}

/// Index into the decoded rows, held inside them.
pub open spec fn step_index(u: int, u_lo: int, last: int) -> int {
    let i = u / 0x1_0000_0000 - u_lo;
    if i < 0 {
        0
    } else if i > last {
        last
    } else {
        i
    }
}

/// Texel at the fixed-point coordinate `u` of a sprite row whose texture rows
/// are `row0` and (bilinear only) `row1`, from texel `u_lo` on.
pub open spec fn row_texel(row0: Seq<u32>, row1: Seq<u32>, u_lo: int, wy: int, u: int, bilinear: bool) -> u32 {
    let i = step_index(
        u,
        u_lo,
        if bilinear {
            row0.len() - 2
        } else {
            row0.len() - 1
        },
    );
    let wx = u / 0x100_0000 % 256;
    if !bilinear || (wx == 0 && wy == 0) {
        row0[i]
    } else {
        bilerp(row0[i], row0[i + 1], row1[i], row1[i + 1], wx, wy) as u32
    }
}

/// Texel of pixel `k` of a sprite row.
pub open spec fn sprite_texel(row0: Seq<u32>, row1: Seq<u32>, u_lo: int, wy: int, ua: int, du: int, k: int, bilinear: bool) -> u32 {
    row_texel(row0, row1, u_lo, wy, step_u(ua, du, k, bilinear), bilinear)
}

/// An offset that is a multiple of the divisors changes neither the whole
/// part of a coordinate nor its weight.
proof fn lemma_offset(u: int)
    ensures
        (u + 0x4000_0000_0000_0000) / 0x1_0000_0000 - 0x4000_0000 == u / 0x1_0000_0000,
        (u + 0x4000_0000_0000_0000) / 0x100_0000 % 256 == u / 0x100_0000 % 256,
{
    let w = u / 0x100_0000;
    assert((u + 0x4000_0000_0000_0000) / 0x100_0000 == w + 0x40_0000_0000);
    assert((w + 0x40_0000_0000) % 256 == w % 256);
}

fn fetch_texel(row0: &[u32], row1: &[u32], u_lo: i32, wy: u32, u: i64, bilinear: bool) -> (t: u32)
    requires
        row0@.len() >= 2,
        row0@.len() <= 0x1_0000,
        bilinear ==> row1@.len() == row0@.len(),
        wy <= 256,
        -0x2000_0000_0000_0000 <= u <= 0x2000_0000_0000_0000,
    ensures
        t == row_texel(row0@, row1@, u_lo as int, wy as int, u as int, bilinear),
{
    let last: i64 = if bilinear {
        row0.len() as i64 - 2
    } else {
        row0.len() as i64 - 1
    };
    let up: u64 = (u + 0x4000_0000_0000_0000) as u64;
    proof {
        lemma_offset(u as int);
    }
    let ix: i64 = (up / 0x1_0000_0000) as i64 - 0x4000_0000 - u_lo as i64;
    let i: usize = if ix < 0 {
        0
    } else if ix > last {
        last as usize
    } else {
        ix as usize
    };
    assert(ix == u as int / 0x1_0000_0000 - u_lo);
    assert(i == step_index(u as int, u_lo as int, last as int));
    if !bilinear {
        return row0[i];
    }
    let wx: u32 = (up / 0x100_0000 % 256) as u32;
    assert(wx == u as int / 0x100_0000 % 256);
    if wx == 0 && wy == 0 {
        row0[i]
    } else {
        bilerp_rgba(row0[i], row0[i + 1], row1[i], row1[i + 1], wx, wy)
    }
}

/// The texels of a sprite row: `u` is stepped in fixed point, and the filter
/// weights follow it.
pub fn sprite_texels(row0: &[u32], row1: &[u32], u_lo: i32, wy: u32, ua: i64, du: i64, count: usize, bilinear: bool) -> (out: Vec<u32>)
    requires
        row0@.len() >= 2,
        row0@.len() <= 0x1_0000,
        bilinear ==> row1@.len() == row0@.len(),
        wy <= 256,
        count <= 8192,
        -0x400_0000_0000_0000 <= ua <= 0x400_0000_0000_0000,
        -0x8000_0000_0000 <= du <= 0x8000_0000_0000,
    ensures
        out@ == Seq::new(
            count as nat,
            |k: int| sprite_texel(row0@, row1@, u_lo as int, wy as int, ua as int, du as int, k, bilinear),
        ),
{
    let mut out: Vec<u32> = Vec::new();
    let half: i64 = if bilinear { 0x8000_0000 } else { 0 };
    let ghost texels = |k: int| sprite_texel(row0@, row1@, u_lo as int, wy as int, ua as int, du as int, k, bilinear);
    let mut u: i64 = ua - half;
    assert(0 * du == 0);
    for k in 0..count
        invariant
            row0@.len() >= 2,
            row0@.len() <= 0x1_0000,
            bilinear ==> row1@.len() == row0@.len(),
            wy <= 256,
            count <= 8192,
            -0x400_0000_0000_0000 <= ua <= 0x400_0000_0000_0000,
            -0x8000_0000_0000 <= du <= 0x8000_0000_0000,
            texels == (|k: int| sprite_texel(row0@, row1@, u_lo as int, wy as int, ua as int, du as int, k, bilinear)),
            u == step_u(ua as int, du as int, k as int, bilinear),
            out@ == Seq::new(k as nat, texels),
    {
        proof {
            assert(-0x1000_0000_0000_0000 <= k * du <= 0x1000_0000_0000_0000) by (nonlinear_arith)
                requires
                    0 <= k <= 8192,
                    -0x8000_0000_0000 <= du <= 0x8000_0000_0000,
            ;
            assert((k + 1) * du == k * du + du) by (nonlinear_arith);
        }
        out.push(fetch_texel(row0, row1, u_lo, wy, u, bilinear));
        assert(out@ =~= Seq::new((k + 1) as nat, texels));
        u = u + du;
    }
    out
}

// --- decoded palettes ---------------------------------------------------------------

/// Blocks a single batch may use before it has to be drawn.
pub const CLUT_SLOTS: usize = 128;

/// Entries of a block: a 4-bit texture's CSA selects a 16-entry window
/// anywhere in the CLUT.
pub const CLUT_ENTRIES: usize = 512;

/// Everything that a decoded palette depends on, the CSA window included.
pub open spec fn palette_key(ti: TexInfo) -> u64 {
    ti.key() | ((ti.clut_base as u64) << 49)
}

/// Setups with the same key read the same palette, and no key is the mark
/// of a block that may not be reused.
proof fn lemma_palette_key(a: TexInfo, b: TexInfo)
    requires
        a.wf(),
        b.wf(),
    ensures
        palette_key(a) != u64::MAX,
        palette_key(a) == palette_key(b) ==> {
            &&& bits(a.tex0, 37, 0x3FFF) == bits(b.tex0, 37, 0x3FFF)
            &&& bits(a.tex0, 51, 0xF) == bits(b.tex0, 51, 0xF)
            &&& bits(a.tex0, 55, 1) == bits(b.tex0, 55, 1)
            &&& bits(a.texa, 0, 0xFF) == bits(b.texa, 0, 0xFF)
            &&& bit(a.texa, 15) == bit(b.texa, 15)
            &&& bits(a.texa, 32, 0xFF) == bits(b.texa, 32, 0xFF)
            &&& a.clut_base == b.clut_base
            &&& a.clut_bits == b.clut_bits
        },
{
    let (t1, x1, n1, c1) = (a.tex0, a.texa, a.clut_bits as u64, a.clut_base as u64);
    let (t2, x2, n2, c2) = (b.tex0, b.texa, b.clut_bits as u64, b.clut_base as u64);
    let k1 = ((t1 >> 37) & 0xFF_FFFF) | (n1 << 24) | (((x1 >> 0) & 0xFF) << 32) | (((x1 >> 15) & 1) << 40) | (((x1 >> 32)
        & 0xFF) << 41) | (c1 << 49);
    let k2 = ((t2 >> 37) & 0xFF_FFFF) | (n2 << 24) | (((x2 >> 0) & 0xFF) << 32) | (((x2 >> 15) & 1) << 40) | (((x2 >> 32)
        & 0xFF) << 41) | (c2 << 49);
    assert(k1 != 0xFFFF_FFFF_FFFF_FFFF && (k1 == k2 ==> (t1 >> 37) & 0x3FFF == (t2 >> 37) & 0x3FFF && (t1 >> 51) & 0xF == (t2
        >> 51) & 0xF && (t1 >> 55) & 1 == (t2 >> 55) & 1 && (x1 >> 0) & 0xFF == (x2 >> 0) & 0xFF && (x1 >> 15) & 1 == (x2
        >> 15) & 1 && (x1 >> 32) & 0xFF == (x2 >> 32) & 0xFF && c1 == c2 && n1 == n2)) by (bit_vector)
        requires
            k1 == ((t1 >> 37) & 0xFF_FFFF) | (n1 << 24) | (((x1 >> 0) & 0xFF) << 32) | (((x1 >> 15) & 1) << 40) | (((x1
                >> 32) & 0xFF) << 41) | (c1 << 49),
            k2 == ((t2 >> 37) & 0xFF_FFFF) | (n2 << 24) | (((x2 >> 0) & 0xFF) << 32) | (((x2 >> 15) & 1) << 40) | (((x2
                >> 32) & 0xFF) << 41) | (c2 << 49),
            n1 <= 8,
            n2 <= 8,
            c1 <= 496,
            c2 <= 496,
    ;
}

/// The same palette, entry by entry.
proof fn lemma_same_palette(c: Canvas, a: TexInfo, b: TexInfo, e: u32)
    requires
        a.wf(),
        b.wf(),
        palette_key(a) == palette_key(b),
    ensures
        palette_entry(c, a.tex0, a.texa, e) == palette_entry(c, b.tex0, b.texa, e),
{
    lemma_palette_key(a, b);
}

/// Entries that a texture of this index width reads.
pub open spec fn window(ti: TexInfo) -> int {
    if ti.clut_bits == 8 {
        256
    } else {
        16
    }
}

/// Decoded palettes for the primitives a batch holds. A queued primitive
/// names a block here rather than carrying its own copy; blocks stay live
/// until the batch is drawn, `reset` then frees them all at once.
pub struct ClutPool {
    pub data: Vec<u32>,
    /// Lookup key per block, or `u64::MAX` for one that may not be reused
    /// (its palette's memory has changed since it was decoded).
    pub keys: Vec<u64>,
    pub used: usize,
}

impl ClutPool {
    pub open spec fn wf(&self) -> bool {
        &&& self.data@.len() == CLUT_SLOTS * CLUT_ENTRIES
        &&& self.keys@.len() == CLUT_SLOTS
        &&& self.used <= CLUT_SLOTS
    }

    /// Block `slot` holds the palette that setup `ti` reads.
    pub open spec fn decodes(&self, slot: int, c: Canvas, ti: TexInfo) -> bool {
        forall|e: int|
            ti.clut_base <= e < ti.clut_base + window(ti) ==> #[trigger] self.data@[slot * CLUT_ENTRIES + e] == palette_entry(
                c,
                ti.tex0,
                ti.texa,
                e as u32,
            )
    }

    /// Every block that may be matched holds the palette of its key.
    pub open spec fn fresh(&self, c: Canvas) -> bool {
        forall|slot: int, ti: TexInfo|
            0 <= slot < self.used && ti.wf() && #[trigger] palette_key(ti) == #[trigger] self.keys@[slot] ==> self.decodes(
                slot,
                c,
                ti,
            )
    }

    /// A block that may be matched is of this setup's key.
    pub open spec fn holds(&self, ti: TexInfo) -> bool {
        exists|i: int| 0 <= i < self.used && #[trigger] self.keys@[i] == palette_key(ti)
    }

    /// Block `slot` is the first of this setup's key.
    pub open spec fn first(&self, slot: int, ti: TexInfo) -> bool {
        &&& 0 <= slot < self.used
        &&& self.keys@[slot] == palette_key(ti)
        &&& forall|j: int| 0 <= j < slot ==> self.keys@[j] != palette_key(ti)
    }

    /// The keys with those in use forgotten.
    pub open spec fn keys_forgotten(&self) -> Seq<u64> {
        Seq::new(
            CLUT_SLOTS as nat,
            |i: int|
                if i < self.used {
                    u64::MAX
                } else {
                    self.keys@[i]
                },
        )
    }

    pub fn new() -> (p: Self)
        ensures
            p.wf(),
            p.used == 0,
            forall|i: int| 0 <= i < CLUT_SLOTS ==> #[trigger] p.keys@[i] == u64::MAX,
            forall|i: int| 0 <= i < CLUT_SLOTS * CLUT_ENTRIES ==> #[trigger] p.data@[i] == 0,
    {
        ClutPool { data: vec![0; CLUT_SLOTS * CLUT_ENTRIES], keys: vec![u64::MAX; CLUT_SLOTS], used: 0 }
    }

    /// The block starting at `off`, as the pixel paths index it.
    pub fn block(&self, off: usize) -> (b: &[u32])
        requires
            self.wf(),
            off + CLUT_ENTRIES <= CLUT_SLOTS * CLUT_ENTRIES,
        ensures
            b@ == self.data@.subrange(off as int, off + CLUT_ENTRIES),
            b@.len() == CLUT_ENTRIES,
    {
        vstd::slice::slice_subrange(self.data.as_slice(), off, off + CLUT_ENTRIES)
    }

    /// Forget every block. Called once the batch referencing them is drawn.
    pub fn reset(&mut self)
        requires
            old(self).wf(),
        ensures
            final(self).wf(),
            final(self).used == 0,
            final(self).data == old(self).data,
            forall|i: int| 0 <= i < CLUT_SLOTS ==> #[trigger] final(self).keys@[i] == u64::MAX,
    {
        self.used = 0;
        self.keys = vec![u64::MAX; CLUT_SLOTS];
    }

    /// Stop handing out matches without disturbing blocks in use: their
    /// palettes' memory has changed, so a later primitive wanting the same
    /// setup has to decode it again into a block of its own.
    pub fn forget_keys(&mut self)
        requires
            old(self).wf(),
        ensures
            final(self).wf(),
            final(self).used == old(self).used,
            final(self).data == old(self).data,
            final(self).keys@ == old(self).keys_forgotten(),
    {
        let n: usize = self.used;
        for i in 0..n
            invariant
                n == self.used,
                self.wf(),
                self.used == old(self).used,
                self.data == old(self).data,
                forall|j: int| 0 <= j < i ==> self.keys@[j] == u64::MAX,
                forall|j: int| i <= j < CLUT_SLOTS ==> self.keys@[j] == old(self).keys@[j],
        {
            self.keys[i] = u64::MAX;
        }
        assert(self.keys@ =~= old(self).keys_forgotten());
    }

    /// Offset of the first block with this key.
    pub fn find(&self, key: u64) -> (r: Option<usize>)
        requires
            self.wf(),
        ensures
            match r {
                Some(off) => exists|i: int|
                    0 <= i < self.used && off == i * CLUT_ENTRIES && self.keys@[i] == key && forall|j: int|
                        0 <= j < i ==> self.keys@[j] != key,
                None => forall|j: int| 0 <= j < self.used ==> self.keys@[j] != key,
            },
    {
        for i in 0..self.used
            invariant
                self.wf(),
                forall|j: int| 0 <= j < i ==> self.keys@[j] != key,
        {
            if self.keys[i] == key {
                assert(0 <= i < self.used && self.keys@[i as int] == key);
                return Some(i * CLUT_ENTRIES);
            }
        }
        None
    }

    /// A block of its own for `key`, while there is one.
    pub fn take_block(&mut self, key: u64) -> (r: Option<usize>)
        requires
            old(self).wf(),
        ensures
            final(self).wf(),
            final(self).data == old(self).data,
            match r {
                Some(off) => old(self).used < CLUT_SLOTS && off == old(self).used * CLUT_ENTRIES && final(self).used == old(
                    self,
                ).used + 1 && final(self).keys@ == old(self).keys@.update(old(self).used as int, key),
                None => old(self).used == CLUT_SLOTS && *final(self) == *old(self),
            },
    {
        if self.used == CLUT_SLOTS {
            return None;
        }
        let slot: usize = self.used;
        self.used = slot + 1;
        self.keys[slot] = key;
        Some(slot * CLUT_ENTRIES)
    }

    /// Make sure a decoded block exists for this palette setup and give its
    /// offset; `None` where every block is in use, so that the batch has to
    /// be drawn first.
    pub fn refresh_clut(&mut self, canvas: &Canvas, ti: &TexInfo) -> (r: Option<usize>)
        requires
            old(self).wf(),
            old(self).fresh(*canvas),
            canvas.wf(),
            ti.wf(),
        ensures
            final(self).wf(),
            final(self).fresh(*canvas),
            final(self).used >= old(self).used,
            forall|i: int| 0 <= i < old(self).used * CLUT_ENTRIES ==> final(self).data@[i] == old(self).data@[i],
            match r {
                Some(off) => exists|slot: int|
                    0 <= slot < final(self).used && off == slot * CLUT_ENTRIES && #[trigger] final(self).decodes(
                        slot,
                        *canvas,
                        *ti,
                    ),
                None => old(self).used == CLUT_SLOTS && !old(self).holds(*ti) && *final(self) == *old(self),
            },
            r is Some == (old(self).holds(*ti) || old(self).used < CLUT_SLOTS),
            old(self).holds(*ti) ==> *final(self) == *old(self) && exists|slot: int| #[trigger]
                old(self).first(slot, *ti) && r == Some((slot * CLUT_ENTRIES) as usize),
            r is Some && !old(self).holds(*ti) ==> final(self).added(old(self), false, *ti) && r == Some(
                (old(self).used * CLUT_ENTRIES) as usize,
            ),
    {
        let key: u64 = ti.clut_key() | ((ti.clut_base as u64) << 49);
        if let Some(off) = self.find(key) {
            proof {
                let slot = choose|i: int| 0 <= i < self.used && off == i * CLUT_ENTRIES && self.keys@[i] == key;
                assert(palette_key(*ti) == self.keys@[slot]);
                assert(self.decodes(slot, *canvas, *ti));
                let first = choose|i: int|
                    0 <= i < self.used && off == i * CLUT_ENTRIES && self.keys@[i] == key && forall|j: int|
                        0 <= j < i ==> self.keys@[j] != key;
                assert(self.first(first, *ti));
            }
            return Some(off);
        }
        let ghost slot = self.used as int;
        let off: usize = match self.take_block(key) {
            Some(off) => off,
            None => return None,
        };
        let entries: usize = if ti.clut_bits == 8 { 256 } else { 16 };
        let end: usize = ti.clut_base + entries;
        for e in ti.clut_base..end
            invariant
                self.wf(),
                canvas.wf(),
                ti.wf(),
                end == ti.clut_base + window(*ti),
                off == slot * CLUT_ENTRIES,
                slot == old(self).used,
                slot < CLUT_SLOTS,
                self.used == slot + 1,
                self.keys@ == old(self).keys@.update(slot, key),
                forall|i: int|
                    0 <= i < CLUT_SLOTS * CLUT_ENTRIES && !(off + ti.clut_base <= i < off + e) ==> #[trigger] self.data@[i]
                        == old(self).data@[i],
                forall|k: int|
                    ti.clut_base <= k < e ==> #[trigger] self.data@[slot * CLUT_ENTRIES + k] == palette_entry(
                        *canvas,
                        ti.tex0,
                        ti.texa,
                        k as u32,
                    ),
        {
            let v: u32 = clut_lookup(canvas, ti.tex0, ti.texa, e as u32);
            self.data[off + e] = v;
        }
        proof {
            assert(self.decodes(slot, *canvas, *ti));
            assert forall|s: int, t: TexInfo|
                0 <= s < self.used && t.wf() && #[trigger] palette_key(t) == #[trigger] self.keys@[s] implies self.decodes(
                s,
                *canvas,
                t,
            ) by {
                if s == slot {
                    lemma_palette_key(t, *ti);
                    assert forall|e: int| t.clut_base <= e < t.clut_base + window(t) implies #[trigger] self.data@[s
                        * CLUT_ENTRIES + e] == palette_entry(*canvas, t.tex0, t.texa, e as u32) by {
                        lemma_same_palette(*canvas, t, *ti, e as u32);
                    }
                } else {
                    assert(old(self).keys@[s] == self.keys@[s]);
                    assert(old(self).decodes(s, *canvas, t));
                    assert forall|e: int| t.clut_base <= e < t.clut_base + window(t) implies #[trigger] self.data@[s
                        * CLUT_ENTRIES + e] == palette_entry(*canvas, t.tex0, t.texa, e as u32) by {
                        assert(old(self).data@[s * CLUT_ENTRIES + e] == palette_entry(*canvas, t.tex0, t.texa, e as u32));
                    }
                }
            }
        }
        Some(off)
    }

    /// `was` with one more block, for this setup: only its entries are new.
    /// Where a transfer came before (`dirty`), the other keys are forgotten.
    pub open spec fn added(&self, was: &ClutPool, dirty: bool, ti: TexInfo) -> bool {
        let off = was.used * CLUT_ENTRIES + ti.clut_base;
        &&& self.used == was.used + 1
        &&& self.keys@ == (if dirty {
            was.keys_forgotten()
        } else {
            was.keys@
        }).update(was.used as int, palette_key(ti))
        &&& forall|i: int|
            0 <= i < CLUT_SLOTS * CLUT_ENTRIES && !(off <= i < off + window(ti)) ==> #[trigger] self.data@[i] == was.data@[i]
    }

    /// The palette for a primitive to be queued. What was decoded before a
    /// transfer (`dirty`) is not matched again. Decoding reads local memory,
    /// so a queue that writes this palette's own memory has to be drawn
    /// first; so does one that has every block in use.
    pub fn palette(&mut self, batch: &Batch, dirty: bool, canvas: &Canvas, ti: &TexInfo) -> (r: Palette)
        requires
            old(self).wf(),
            !dirty ==> old(self).fresh(*canvas),
            canvas.wf(),
            ti.wf(),
        ensures
            final(self).wf(),
            final(self).fresh(*canvas),
            final(self).used >= old(self).used,
            forall|i: int| 0 <= i < old(self).used * CLUT_ENTRIES ==> final(self).data@[i] == old(self).data@[i],
            ({
                let matched = !dirty && old(self).holds(*ti);
                let hazard = batch.spec_after_write(palette_blocks(ti.tex0));
                &&& r is Draw == (!matched && (hazard || old(self).used == CLUT_SLOTS))
                &&& r is Draw || matched ==> {
                    &&& final(self).used == old(self).used
                    &&& final(self).data == old(self).data
                    &&& final(self).keys@ == (if dirty {
                        old(self).keys_forgotten()
                    } else {
                        old(self).keys@
                    })
                }
                &&& matched ==> exists|slot: int| #[trigger]
                    old(self).first(slot, *ti) && r == Palette::Ready((slot * CLUT_ENTRIES) as usize)
                &&& r is Ready && !matched ==> r == Palette::Ready((old(self).used * CLUT_ENTRIES) as usize)
                    && final(self).added(old(self), dirty, *ti)
            }),
            r matches Palette::Ready(off) ==> exists|slot: int|
                0 <= slot < final(self).used && off == slot * CLUT_ENTRIES && #[trigger] final(self).decodes(
                    slot,
                    *canvas,
                    *ti,
                ),
    {
        if dirty {
            self.forget_keys();
            proof {
                assert forall|slot: int, t: TexInfo|
                    0 <= slot < self.used && t.wf() && #[trigger] palette_key(t) == #[trigger] self.keys@[slot] implies self.decodes(
                    slot,
                    *canvas,
                    t,
                ) by {
                    lemma_palette_key(t, t);
                }
                lemma_palette_key(*ti, *ti);
            }
        }
        let key: u64 = ti.clut_key() | ((ti.clut_base as u64) << 49);
        if let Some(off) = self.find(key) {
            proof {
                let slot = choose|i: int| 0 <= i < self.used && off == i * CLUT_ENTRIES && self.keys@[i] == key;
                assert(palette_key(*ti) == self.keys@[slot]);
                assert(self.decodes(slot, *canvas, *ti));
                let first = choose|i: int|
                    0 <= i < self.used && off == i * CLUT_ENTRIES && self.keys@[i] == key && forall|j: int|
                        0 <= j < i ==> self.keys@[j] != key;
                assert(self.first(first, *ti));
                assert(old(self).first(first, *ti));
            }
            return Palette::Ready(off);
        }
        if batch.palette_needs_flush(ti) {
            return Palette::Draw;
        }
        match self.refresh_clut(canvas, ti) {
            Some(off) => Palette::Ready(off),
            None => Palette::Draw,
        }
    }
}

/// What became of a request for a palette.
pub enum Palette {
    /// The block at this offset holds it.
    Ready(usize),
    /// The queue is to be drawn and the request made again.
    Draw,
}

/// Whether a primitive with these attributes reads a palette.
pub fn wants_palette(attrs: u64, ti: &TexInfo) -> (r: bool)
    ensures
        r == (attrs & 0x10 != 0 && ti.clut_bits != 0),
{
    attrs & 0x10 != 0 && ti.clut_bits != 0
}

/// Once the queue is drawn and its blocks are free, the palette is there:
/// a request is made twice at most.
pub proof fn law_a_drawn_queue_frees_the_palette(batch: Batch, pool: ClutPool, tex0: u64)
    requires
        batch.writes@.len() == 0,
        pool.used == 0,
    ensures
        !(batch.spec_after_write(palette_blocks(tex0)) || pool.used == CLUT_SLOTS),
{
}

} // verus!
