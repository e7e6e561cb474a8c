//! What a texture coordinate finds, and what the registers of the drawing
//! environment mean, field by field.

use vstd::prelude::*;
use vstd::arithmetic::power2::*;
use crate::bits::{law_bit_is_parity, law_bits_divide};
use crate::gs::canvas::Canvas;
use crate::gs::regs::{Context, Registers};
use crate::gs::transfer::{PSMCT24, PSMT4HH, PSMT4HL, PSMT8H};
use super::pipe::{PixelPipe, TexInfo};
use super::pixel::{bilerp, law_lerp_ends};
use super::texture::{expanded16, expanded24, palette_pos, sampled, texel_at, wrapped};

verus! {

/// A 16-bit texel: five bits per channel, red lowest, each in the top of its
/// byte. Its top bit chooses between TEXA's two alphas, except that with AEM
/// a texel of all zeros is transparent.
pub proof fn law_expanding_16_bits(px: u16, texa: u64)
    ensures
        ({
            let v = expanded16(px, texa);
            let (p, t) = (px as int, texa as int);
            let aem = t / 0x8000 % 2 == 1;
            &&& v % 256 == p % 32 * 8
            &&& v / 0x100 % 256 == p / 32 % 32 * 8
            &&& v / 0x1_0000 % 256 == p / 1024 % 32 * 8
            &&& p / 0x8000 == 1 ==> v / 0x100_0000 == t / 0x1_0000_0000 % 256
            &&& p / 0x8000 == 0 && !(aem && p == 0) ==> v / 0x100_0000 == t % 256
            &&& aem && p == 0 ==> v == 0
        }),
{
    lemma2_to64();
    law_bits_divide(texa, 32, 8, 0xFF);
    law_bits_divide(texa, 0, 8, 0xFF);
    law_bit_is_parity(texa, 15);
    let (r, g, b) = (8 * (px as int % 32), 8 * (px as int / 32 % 32), 8 * (px as int / 1024 % 32));
    let v = expanded16(px, texa);
    let a = v / 0x100_0000;
    assert(v == r + 0x100 * (g + 0x100 * (b + 0x100 * a)));
    assert(v / 0x100 == g + 0x100 * (b + 0x100 * a));
    assert(v / 0x1_0000 == b + 0x100 * a);
}

/// A 24-bit texel keeps its colour and takes TEXA's first alpha.
pub proof fn law_expanding_24_bits(px: u32, texa: u64)
    ensures
        expanded24(px, texa) % 0x100_0000 == px as int % 0x100_0000,
        expanded24(px, texa) / 0x100_0000 == texa as int % 256,
{
    lemma2_to64();
    law_bits_divide(texa, 0, 8, 0xFF);
}

/// REPEAT (0) finds the same texel every `size` texels; CLAMP (1) stays at
/// the ends of the texture and REGION_CLAMP (2) at those of its region.
pub proof fn law_wrapping(c: i32, size: int, min: i32, max: i32)
    requires
        0 < size <= 1024,
        c + size <= i32::MAX,
    ensures
        0 <= wrapped(c, 0, size, min, max) < size,
        wrapped((c + size) as i32, 0, size, min, max) == wrapped(c, 0, size, min, max),
        0 <= c < size ==> wrapped(c, 0, size, min, max) == c && wrapped(c, 1, size, min, max) == c,
        c < 0 ==> wrapped(c, 1, size, min, max) == 0,
        c >= size ==> wrapped(c, 1, size, min, max) == size - 1,
        min <= c <= max ==> wrapped(c, 2, size, min, max) == c,
        c < min ==> wrapped(c, 2, size, min, max) == min,
        min <= max < c ==> wrapped(c, 2, size, min, max) == max,
{
    vstd::arithmetic::div_mod::lemma_mod_bound(c as int, size);
    vstd::arithmetic::div_mod::lemma_mod_add_multiples_vanish(c as int, size);
    if 0 <= c < size {
        vstd::arithmetic::div_mod::lemma_small_mod(c as nat, size as nat);
    }
}

proof fn lemma_region_bits(c: i32, min: i32, max: i32, k: u32)
    by (bit_vector)
    requires
        k < 31,
    ensures
        (((c & min) | max) >> k) & 1 == 1 <==> (max >> k) & 1 == 1 || ((c >> k) & 1 == 1 && (min >> k) & 1 == 1),
{
}

/// REGION_REPEAT (3), bit by bit: the mask (MINU) lets the coordinate's bits
/// through and the fixed part (MAXU) sets its own.
pub proof fn law_region_repeat(c: i32, size: int, min: i32, max: i32, k: u32)
    requires
        k < 31,
    ensures
        ({
            let r = wrapped(c, 3, size, min, max) as i32;
            (r >> k) & 1 == 1 <==> (max >> k) & 1 == 1 || ((c >> k) & 1 == 1 && (min >> k) & 1 == 1)
        }),
{
    lemma_region_bits(c, min, max, k);
}

proof fn lemma_palette_bits(e: u32)
    by (bit_vector)
    requires
        e < 0x200,
    ensures
        e & 0xFF == e % 256,
        e >> 8 == e / 256,
        e < 256 ==> (((e & 0xE7) | ((e & 0x08) << 1) | ((e & 0x10) >> 1)) & 0xF) == e % 8 + 8 * (e / 16 % 2),
        e < 256 ==> (((e & 0xE7) | ((e & 0x08) << 1) | ((e & 0x10) >> 1)) >> 4) == e / 8 % 2 + 2 * (e / 32),
{
}

/// A CSM1 palette is an image 16 entries wide made of tiles of 8 by 2
/// entries; a CSM2 palette is one row.
pub proof fn law_palette_layout(csm: u64, e: u32)
    requires
        e < 0x200,
    ensures
        ({
            let (x, y) = palette_pos(csm, e);
            &&& csm != 0 ==> x == e % 256 && y == e / 256
            &&& csm == 0 && e < 256 ==> x == e % 8 + 8 * (e / 16 % 2) && y == e / 8 % 2 + 2 * (e / 32)
        }),
{
    lemma_palette_bits(e);
}

/// The corners of a filtered footprint: no weight picks the first texel, a
/// full one to the right or down the neighbour that lies there.
pub proof fn law_bilerp_corners(t00: u32, t10: u32, t01: u32, t11: u32)
    ensures
        bilerp(t00, t10, t01, t11, 0, 0) == t00,
        bilerp(t00, t10, t01, t11, 256, 0) == t10,
        bilerp(t00, t10, t01, t11, 0, 256) == t01,
        bilerp(t00, t10, t01, t11, 256, 256) == t11,
{
    law_lerp_ends(t00, t10);
    law_lerp_ends(t01, t11);
    law_lerp_ends(t00, t01);
    law_lerp_ends(t10, t11);
}

/// A sample without weights is the texel itself; with full ones it is the
/// texel one to the right, one below, or both.
pub proof fn law_sampling(c: Canvas, clut: Seq<u32>, ti: TexInfo, x: i32, y: i32)
    requires
        x < i32::MAX,
        y < i32::MAX,
    ensures
        sampled(c, clut, ti, x, y, 0, 0) == texel_at(c, clut, ti, x, y),
        sampled(c, clut, ti, x, y, 256, 0) == texel_at(c, clut, ti, (x + 1) as i32, y),
        sampled(c, clut, ti, x, y, 0, 256) == texel_at(c, clut, ti, x, (y + 1) as i32),
        sampled(c, clut, ti, x, y, 256, 256) == texel_at(c, clut, ti, (x + 1) as i32, (y + 1) as i32),
{
    law_bilerp_corners(
        texel_at(c, clut, ti, x, y),
        texel_at(c, clut, ti, (x + 1) as i32, y),
        texel_at(c, clut, ti, x, (y + 1) as i32),
        texel_at(c, clut, ti, (x + 1) as i32, (y + 1) as i32),
    );
}

/// The palette formats in the top byte of a 32-bit pixel: an 8-bit index is
/// the two 4-bit indices, the low one lower, as a palette that counts shows.
pub proof fn law_high_byte_formats(c: Canvas, ti: TexInfo, u: i32, v: i32)
    requires
        ti.clut_base == 0,
    ensures
        ({
            let count = Seq::new(512, |i: int| i as u32);
            let at = |psm: u32| texel_at(c, count, TexInfo { psm, ..ti }, u, v);
            at(PSMT8H) == 16 * at(PSMT4HH) + at(PSMT4HL)
        }),
{
    let count = Seq::new(512, |i: int| i as u32);
    let x = wrapped(u, ti.wms, ti.tw as int, ti.minu, ti.maxu) as u32;
    let y = wrapped(v, ti.wmt, ti.th as int, ti.minv, ti.maxv) as u32;
    let px = c.ct32(ti.tbp, ti.tbw, x, y) as u32;
    let h = px as int / 0x100_0000;
    assert(0 <= h < 256);
    assert(px as int / 0x1000_0000 == h / 16);
    assert(count[h] == h && count[h % 16] == h % 16 && count[h / 16] == h / 16);
}

/// The fields of TEST, ALPHA, ZBUF, FRAME and SCISSOR, by place.
pub proof fn law_environment_fields(r: Registers, clut_off: u32)
    ensures
        ({
            let p = PixelPipe::decoded(r, clut_off);
            let c = r.context();
            let (test, alpha, zbuf, frame, sc) = (
                c.test as int,
                c.alpha as int,
                c.zbuf as int,
                c.frame as int,
                c.scissor as int,
            );
            &&& p.ate <==> test % 2 == 1
            &&& p.atst == test / 2 % 8
            &&& p.aref == test / 16 % 256
            &&& p.afail == test / 0x1000 % 4
            &&& p.zte <==> test / 0x1_0000 % 2 == 1
            &&& p.ztst == test / 0x2_0000 % 4
            &&& p.blend_a == alpha % 4
            &&& p.blend_b == alpha / 4 % 4
            &&& p.blend_c == alpha / 16 % 4
            &&& p.blend_d == alpha / 64 % 4
            &&& p.blend_fix == alpha / 0x1_0000_0000 % 256
            &&& p.zbp == zbuf % 512 * 32
            &&& p.zmsk <==> zbuf / 0x1_0000_0000 % 2 == 1
            &&& p.fbp == frame % 512 * 32
            &&& p.fbw == frame / 0x1_0000 % 64
            &&& p.fb24 <==> frame / 0x100_0000 % 64 == 1
            &&& p.fbmsk == frame / 0x1_0000_0000
            &&& p.scx0 == sc % 0x800
            &&& p.scx1 == sc / 0x1_0000 % 0x800
            &&& p.scy0 == sc / 0x1_0000_0000 % 0x800
            &&& p.scy1 == sc / 0x1_0000_0000_0000 % 0x800
        }),
{
    lemma2_to64();
    lemma2_to64_rest();
    let c = r.context();
    law_bit_is_parity(c.test, 0);
    law_bits_divide(c.test, 1, 3, 7);
    law_bits_divide(c.test, 4, 8, 0xFF);
    law_bits_divide(c.test, 12, 2, 3);
    law_bit_is_parity(c.test, 16);
    law_bits_divide(c.test, 17, 2, 3);
    law_bits_divide(c.alpha, 0, 2, 3);
    law_bits_divide(c.alpha, 2, 2, 3);
    law_bits_divide(c.alpha, 4, 2, 3);
    law_bits_divide(c.alpha, 6, 2, 3);
    law_bits_divide(c.alpha, 32, 8, 0xFF);
    law_bits_divide(c.zbuf, 0, 9, 0x1FF);
    law_bit_is_parity(c.zbuf, 32);
    law_bits_divide(c.frame, 0, 9, 0x1FF);
    law_bits_divide(c.frame, 16, 6, 0x3F);
    law_bits_divide(c.frame, 24, 6, 0x3F);
    law_bits_divide(c.frame, 32, 32, 0xFFFF_FFFF);
    law_bits_divide(c.scissor, 0, 11, 0x7FF);
    law_bits_divide(c.scissor, 16, 11, 0x7FF);
    law_bits_divide(c.scissor, 32, 11, 0x7FF);
    law_bits_divide(c.scissor, 48, 11, 0x7FF);
    assert(PSMCT24 == 1);
}

/// The depth formats: 32 bits, 24 bits, and 16 bits for the others.
pub proof fn law_depth_formats(r: Registers, clut_off: u32)
    ensures
        ({
            let z = r.context().zbuf as int / 0x100_0000 % 16;
            let mask = PixelPipe::decoded(r, clut_off).zmask;
            &&& z == 0 ==> mask == 0xFFFF_FFFF
            &&& z == 1 ==> mask == 0xFF_FFFF
            &&& z >= 2 ==> mask == 0xFFFF
        }),
{
    lemma2_to64();
    law_bits_divide(r.context().zbuf, 24, 4, 0xF);
}

/// The attributes of PRIM and the fields of TEX0 that shade a pixel, by
/// place.
pub proof fn law_attribute_fields(r: Registers, clut_off: u32)
    ensures
        ({
            let p = PixelPipe::decoded(r, clut_off);
            let (a, t) = (r.spec_attrs() as int, r.context().tex0 as int);
            &&& p.kind == r.prim as int % 8
            &&& p.tme <==> a / 16 % 2 == 1
            &&& p.abe <==> a / 64 % 2 == 1
            &&& p.fst <==> a / 256 % 2 == 1
            &&& p.tcc <==> t / 0x4_0000_0000 % 2 == 1
            &&& p.tfx == t / 0x8_0000_0000 % 4
            &&& p.bilinear <==> r.context().tex1 as int / 32 % 2 == 1
        }),
{
    lemma2_to64();
    lemma2_to64_rest();
    let t = r.context().tex0;
    law_bits_divide(r.prim, 0, 3, 7);
    law_bit_is_parity(r.spec_attrs(), 4);
    law_bit_is_parity(r.spec_attrs(), 6);
    law_bit_is_parity(r.spec_attrs(), 8);
    law_bit_is_parity(t, 34);
    law_bits_divide(t, 35, 2, 3);
    law_bit_is_parity(r.context().tex1, 5);
}

/// The fields of TEX0 and CLAMP that place a texture, by place; its sides
/// are powers of two, up to 1024.
pub proof fn law_texture_fields(ctx: Context, texa: u64)
    ensures
        ({
            let ti = TexInfo::decoded(ctx, texa);
            let (t, c) = (ctx.tex0 as int, ctx.clamp as int);
            let (w, h) = (t / 0x400_0000 % 16, t / 0x4000_0000 % 16);
            &&& ti.tbp == t % 0x4000
            &&& ti.tbw == t / 0x4000 % 64
            &&& ti.psm == t / 0x10_0000 % 64
            &&& w <= 10 ==> ti.tw == pow2(w as nat)
            &&& h <= 10 ==> ti.th == pow2(h as nat)
            &&& w > 10 ==> ti.tw == 1024
            &&& h > 10 ==> ti.th == 1024
            &&& ti.wms == c % 4
            &&& ti.wmt == c / 4 % 4
            &&& ti.minu == c / 16 % 1024
            &&& ti.maxu == c / 0x4000 % 1024
            &&& ti.minv == c / 0x100_0000 % 1024
            &&& ti.maxv == c / 0x4_0000_0000 % 1024
            &&& ti.clut_bits == 4 ==> ti.clut_base == t / 0x100_0000_0000_0000 % 32 * 16
            &&& ti.clut_bits != 4 ==> ti.clut_base == 0
        }),
{
    lemma2_to64();
    lemma2_to64_rest();
    let (t, c) = (ctx.tex0, ctx.clamp);
    law_bits_divide(t, 0, 14, 0x3FFF);
    law_bits_divide(t, 14, 6, 0x3F);
    law_bits_divide(t, 20, 6, 0x3F);
    law_bits_divide(t, 26, 4, 0xF);
    law_bits_divide(t, 30, 4, 0xF);
    law_bits_divide(t, 56, 5, 0x1F);
    law_bits_divide(c, 0, 2, 3);
    law_bits_divide(c, 2, 2, 3);
    law_bits_divide(c, 4, 10, 0x3FF);
    law_bits_divide(c, 14, 10, 0x3FF);
    law_bits_divide(c, 24, 10, 0x3FF);
    law_bits_divide(c, 34, 10, 0x3FF);
}

} // verus!
