//! The drawing environment, decoded once per primitive.

use vstd::prelude::*;
use crate::bits::{bit, bits};
use crate::gs::regs::{Context, Registers, Vertex};
use crate::gs::transfer::{PSMCT24, PSMT4, PSMT4HH, PSMT4HL, PSMT8, PSMT8H};

verus! {

/// 2 to the power `n`, up to the largest texture size.
pub open spec fn tex_size(n: u64) -> u32 {
    if n == 0 {
        1
    } else if n == 1 {
        2
    } else if n == 2 {
        4
    } else if n == 3 {
        8
    } else if n == 4 {
        16
    } else if n == 5 {
        32
    } else if n == 6 {
        64
    } else if n == 7 {
        128
    } else if n == 8 {
        256
    } else if n == 9 {
        512
    } else {
        1024
    }
}

fn tex_size_of(n: u64) -> (r: u32)
    ensures
        r == tex_size(n),
{
    match n {
        0 => 1,
        1 => 2,
        2 => 4,
        3 => 8,
        4 => 16,
        5 => 32,
        6 => 64,
        7 => 128,
        8 => 256,
        9 => 512,
        _ => 1024,
    }
}

/// Palette index width of a texture format, zero for direct colour.
pub open spec fn index_bits(psm: u32) -> u8 {
    if psm == PSMT8 || psm == PSMT8H {
        8
    } else if psm == PSMT4 || psm == PSMT4HL || psm == PSMT4HH {
        4
    } else {
        0
    }
}

/// TEX0/CLAMP fields decoded once per primitive.
#[derive(Clone, Copy)]
pub struct TexInfo {
    pub tex0: u64,
    pub tbp: u32,
    pub tbw: u32,
    pub psm: u32,
    pub tw: u32,
    pub th: u32,
    /// CLAMP: 0 repeat, 1 clamp, 2 region clamp, 3 region repeat.
    pub wms: u64,
    pub wmt: u64,
    pub minu: i32,
    pub maxu: i32,
    pub minv: i32,
    pub maxv: i32,
    pub texa: u64,
    /// Palette index width (0 for direct-color formats).
    pub clut_bits: u8,
    /// First CLUT cache entry: CSA offset in 16-entry slots (4-bit only).
    pub clut_base: usize,
}

impl TexInfo {
    pub open spec fn decoded(ctx: Context, texa: u64) -> TexInfo {
        let tex0 = ctx.tex0;
        let psm = bits(tex0, 20, 0x3F) as u32;
        TexInfo {
            tex0,
            tbp: bits(tex0, 0, 0x3FFF) as u32,
            tbw: bits(tex0, 14, 0x3F) as u32,
            psm,
            tw: tex_size(bits(tex0, 26, 0xF)),
            th: tex_size(bits(tex0, 30, 0xF)),
            wms: bits(ctx.clamp, 0, 3),
            wmt: bits(ctx.clamp, 2, 3),
            minu: bits(ctx.clamp, 4, 0x3FF) as i32,
            maxu: bits(ctx.clamp, 14, 0x3FF) as i32,
            minv: bits(ctx.clamp, 24, 0x3FF) as i32,
            maxv: bits(ctx.clamp, 34, 0x3FF) as i32,
            texa,
            clut_bits: index_bits(psm),
            clut_base: if index_bits(psm) == 4 {
                (bits(tex0, 56, 0x1F) * 16) as usize
            } else {
                0
            },
        }
    }

    /// The ranges that the register fields leave.
    pub open spec fn wf(self) -> bool {
        &&& self.tbp < 0x4000 && self.tbw < 0x40
        &&& exists|n: u64| self.tw == tex_size(n)
        &&& exists|n: u64| self.th == tex_size(n)
        &&& self.wms < 4 && self.wmt < 4
        &&& 0 <= self.minu < 0x400 && 0 <= self.maxu < 0x400
        &&& 0 <= self.minv < 0x400 && 0 <= self.maxv < 0x400
        &&& self.clut_base <= 496
        &&& self.clut_bits == index_bits(self.psm)
        &&& self.clut_bits != 4 ==> self.clut_base == 0
    }

    pub fn new(ctx: &Context, texa: u64) -> (t: Self)
        ensures
            t == TexInfo::decoded(*ctx, texa),
            t.wf(),
    {
        let tex0: u64 = ctx.tex0;
        let psm: u32 = bits(tex0, 20, 0x3F) as u32;
        let clut_bits: u8 = if psm == PSMT8 || psm == PSMT8H {
            8
        } else if psm == PSMT4 || psm == PSMT4HL || psm == PSMT4HH {
            4
        } else {
            0
        };
        TexInfo {
            tex0,
            tbp: bits(tex0, 0, 0x3FFF) as u32,
            tbw: bits(tex0, 14, 0x3F) as u32,
            psm,
            tw: tex_size_of(bits(tex0, 26, 0xF)),
            th: tex_size_of(bits(tex0, 30, 0xF)),
            wms: bits(ctx.clamp, 0, 3),
            wmt: bits(ctx.clamp, 2, 3),
            minu: bits(ctx.clamp, 4, 0x3FF) as i32,
            maxu: bits(ctx.clamp, 14, 0x3FF) as i32,
            minv: bits(ctx.clamp, 24, 0x3FF) as i32,
            maxv: bits(ctx.clamp, 34, 0x3FF) as i32,
            texa,
            clut_bits,
            clut_base: if clut_bits == 4 {
                bits(tex0, 56, 0x1F) as usize * 16
            } else {
                0
            },
        }
    }

    /// Everything the decoded CLUT depends on: CBP/CPSM/CSM/CSA, the index
    /// width, and the TEXA fields used to expand 16-bit entries.
    pub open spec fn key(self) -> u64 {
        bits(self.tex0, 37, 0xFF_FFFF) | ((self.clut_bits as u64) << 24) | (bits(self.texa, 0, 0xFF) << 32) | (bits(
            self.texa,
            15,
            1,
        ) << 40) | (bits(self.texa, 32, 0xFF) << 41)
    }

    pub fn clut_key(&self) -> (k: u64)
        ensures
            k == self.key(),
    {
        bits(self.tex0, 37, 0xFF_FFFF) | ((self.clut_bits as u64) << 24) | (bits(self.texa, 0, 0xFF) << 32) | (bits(
            self.texa,
            15,
            1,
        ) << 40) | (bits(self.texa, 32, 0xFF) << 41)
    }
}

/// Drawing environment decoded once per primitive.
#[derive(Clone, Copy)]
pub struct PixelPipe {
    /// Primitive kind being drawn (PRIM bits 0-2).
    pub kind: u8,
    // Scissor, inclusive pixel bounds.
    pub scx0: i32,
    pub scx1: i32,
    pub scy0: i32,
    pub scy1: i32,
    pub tme: bool,
    pub fst: bool,
    pub abe: bool,
    pub tfx: u8,
    pub tcc: bool,
    pub bilinear: bool,
    pub tex: TexInfo,
    pub ate: bool,
    pub atst: u8,
    pub aref: u32,
    pub afail: u8,
    pub zte: bool,
    pub ztst: u8,
    pub zbp: u32,
    pub zmsk: bool,
    pub zmask: u32,
    pub fbp: u32,
    pub fbw: u32,
    pub fb24: bool,
    pub fbmsk: u32,
    /// ALPHA register selectors (0 = source, 1 = destination, 2 = zero /
    /// FIX for `blend_c`) and the FIX value.
    pub blend_a: u8,
    pub blend_b: u8,
    pub blend_c: u8,
    pub blend_d: u8,
    pub blend_fix: u32,
    /// The Z buffer is read or written per pixel (ZTE with a real test,
    /// or unmasked writes).
    pub z_touched: bool,
    /// Offset of this primitive's palette block.
    pub clut_off: u32,
    /// Textured MODULATE drawing without a frame mask: eligible for the
    /// specialised row loops.
    pub fast: bool,
    /// As `fast`, but the texture function is DECAL: the texel replaces the
    /// vertex colour instead of scaling it.
    pub fast_decal: bool,
    /// Untextured sprite with a constant colour per row (blended or not)
    /// and no Z test.
    pub flat_fill: bool,
}

/// Z bits that the depth format keeps; the upper bits of the stored word
/// belong to whatever else shares the memory.
pub open spec fn depth_mask(zpsm: u64) -> u32 {
    if zpsm == 0 {
        u32::MAX
    } else if zpsm == 1 {
        0x00FF_FFFF
    } else {
        0xFFFF
    }
}

impl PixelPipe {
    pub open spec fn wf(self) -> bool {
        &&& 0 <= self.scx0 < 0x1000 && 0 <= self.scx1 < 0x1000
        &&& 0 <= self.scy0 < 0x1000 && 0 <= self.scy1 < 0x1000
        &&& self.fbp < 0x1_0000 && self.zbp < 0x1_0000 && self.fbw < 0x80
        &&& self.aref <= 255 && self.blend_fix <= 255
        &&& self.atst < 8 && self.afail < 4 && self.ztst < 4
        &&& self.tfx < 4 && self.blend_a < 4 && self.blend_b < 4 && self.blend_c < 4 && self.blend_d < 4
        &&& self.tex.wf()
    }

    /// The environment that the registers describe.
    pub open spec fn decoded(r: Registers, clut_off: u32) -> PixelPipe {
        let attrs = r.spec_attrs();
        let ctx = r.context();
        let test = ctx.test;
        let tme = bit(attrs, 4);
        let tfx = bits(ctx.tex0, 35, 3) as u8;
        let zte = bit(test, 16);
        let ztst = bits(test, 17, 3) as u8;
        let zmsk = bit(ctx.zbuf, 32);
        let fbmsk = bits(ctx.frame, 32, 0xFFFF_FFFF) as u32;
        let z_touched = zte && !(ztst == 1 && zmsk);
        PixelPipe {
            kind: bits(r.prim, 0, 7) as u8,
            scx0: bits(ctx.scissor, 0, 0x7FF) as i32,
            scx1: bits(ctx.scissor, 16, 0x7FF) as i32,
            scy0: bits(ctx.scissor, 32, 0x7FF) as i32,
            scy1: bits(ctx.scissor, 48, 0x7FF) as i32,
            tme,
            fst: bit(attrs, 8),
            abe: bit(attrs, 6),
            tfx,
            tcc: bit(ctx.tex0, 34),
            bilinear: bit(ctx.tex1, 5),
            tex: TexInfo::decoded(ctx, r.texa),
            ate: bit(test, 0),
            atst: bits(test, 1, 7) as u8,
            aref: bits(test, 4, 0xFF) as u32,
            afail: bits(test, 12, 3) as u8,
            zte,
            ztst,
            zbp: (bits(ctx.zbuf, 0, 0x1FF) * 32) as u32,
            zmsk,
            zmask: depth_mask(bits(ctx.zbuf, 24, 0xF)),
            fbp: (bits(ctx.frame, 0, 0x1FF) * 32) as u32,
            fbw: bits(ctx.frame, 16, 0x3F) as u32,
            fb24: bits(ctx.frame, 24, 0x3F) == PSMCT24,
            fbmsk,
            blend_a: bits(ctx.alpha, 0, 3) as u8,
            blend_b: bits(ctx.alpha, 2, 3) as u8,
            blend_c: bits(ctx.alpha, 4, 3) as u8,
            blend_d: bits(ctx.alpha, 6, 3) as u8,
            blend_fix: bits(ctx.alpha, 32, 0xFF) as u32,
            z_touched,
            clut_off,
            fast: tme && tfx == 0 && fbmsk == 0,
            fast_decal: tme && tfx == 1 && fbmsk == 0,
            // Z may be written (ALWAYS) but never tested.
            flat_fill: !tme && (!z_touched || ztst == 1) && fbmsk == 0,
        }
    }

    /// Decode the drawing environment for the current context once per
    /// primitive; the per-pixel path only reads it.
    pub fn new(r: &Registers, clut_off: u32) -> (p: Self)
        ensures
            p == PixelPipe::decoded(*r, clut_off),
            p.wf(),
    {
        let attrs: u64 = r.attrs();
        let ctx = r.current_context();
        let test: u64 = ctx.test;
        let tme = bit(attrs, 4);
        let tfx: u8 = bits(ctx.tex0, 35, 3) as u8;
        let zte = bit(test, 16);
        let ztst: u8 = bits(test, 17, 3) as u8;
        let zmsk = bit(ctx.zbuf, 32);
        let fbmsk: u32 = bits(ctx.frame, 32, 0xFFFF_FFFF) as u32;
        let z_touched = zte && !(ztst == 1 && zmsk);
        let zpsm: u64 = bits(ctx.zbuf, 24, 0xF);
        PixelPipe {
            kind: bits(r.prim, 0, 7) as u8,
            scx0: bits(ctx.scissor, 0, 0x7FF) as i32,
            scx1: bits(ctx.scissor, 16, 0x7FF) as i32,
            scy0: bits(ctx.scissor, 32, 0x7FF) as i32,
            scy1: bits(ctx.scissor, 48, 0x7FF) as i32,
            tme,
            fst: bit(attrs, 8),
            abe: bit(attrs, 6),
            tfx,
            tcc: bit(ctx.tex0, 34),
            bilinear: bit(ctx.tex1, 5),
            tex: TexInfo::new(&ctx, r.texa),
            ate: bit(test, 0),
            atst: bits(test, 1, 7) as u8,
            aref: bits(test, 4, 0xFF) as u32,
            afail: bits(test, 12, 3) as u8,
            zte,
            ztst,
            zbp: (bits(ctx.zbuf, 0, 0x1FF) * 32) as u32,
            zmsk,
            zmask: if zpsm == 0 {
                u32::MAX
            } else if zpsm == 1 {
                0x00FF_FFFF
            } else {
                0xFFFF
            },
            fbp: (bits(ctx.frame, 0, 0x1FF) * 32) as u32,
            fbw: bits(ctx.frame, 16, 0x3F) as u32,
            fb24: bits(ctx.frame, 24, 0x3F) as u32 == PSMCT24,
            fbmsk,
            blend_a: bits(ctx.alpha, 0, 3) as u8,
            blend_b: bits(ctx.alpha, 2, 3) as u8,
            blend_c: bits(ctx.alpha, 4, 3) as u8,
            blend_d: bits(ctx.alpha, 6, 3) as u8,
            blend_fix: bits(ctx.alpha, 32, 0xFF) as u32,
            z_touched,
            clut_off,
            fast: tme && tfx == 0 && fbmsk == 0,
            fast_decal: tme && tfx == 1 && fbmsk == 0,
            flat_fill: !tme && (!z_touched || ztst == 1) && fbmsk == 0,
        }
    }

    /// The environment re-addressed in the overlay's doubled coordinate
    /// space. Texture fields stay in 1x space: sampling reads local memory.
    pub open spec fn doubled(self) -> PixelPipe {
        PixelPipe {
            scx0: (2 * self.scx0) as i32,
            scy0: (2 * self.scy0) as i32,
            scx1: (2 * self.scx1 + 1) as i32,
            scy1: (2 * self.scy1 + 1) as i32,
            fbp: (4 * self.fbp) as u32,
            zbp: (4 * self.zbp) as u32,
            fbw: (2 * self.fbw) as u32,
            ..self
        }
    }

    pub fn scaled_pipe(&self) -> (p: PixelPipe)
        requires
            self.wf(),
            self.scx0 < 0x800 && self.scx1 < 0x800 && self.scy0 < 0x800 && self.scy1 < 0x800,
            self.fbp < 0x4000 && self.zbp < 0x4000 && self.fbw < 0x40,
        ensures
            p == self.doubled(),
            p.wf(),
    {
        let mut p = *self;
        p.scx0 = 2 * p.scx0;
        p.scy0 = 2 * p.scy0;
        p.scx1 = 2 * p.scx1 + 1;
        p.scy1 = 2 * p.scy1 + 1;
        p.fbp = 4 * p.fbp;
        p.zbp = 4 * p.zbp;
        p.fbw = 2 * p.fbw;
        p
    }
}

/// A vertex in the overlay's doubled 12.4 coordinate space.
pub fn scale_vertex(v: Vertex) -> (r: Vertex)
    requires
        -0x1_0000 < v.x < 0x1_0000,
        -0x1_0000 < v.y < 0x1_0000,
    ensures
        r == (Vertex { x: (2 * v.x) as i32, y: (2 * v.y) as i32, ..v }),
{
    let mut r = v;
    r.x = 2 * v.x;
    r.y = 2 * v.y;
    r
}

} // verus!
